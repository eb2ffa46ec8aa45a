//! Request-scoped sessions for HTTP services: the state lattice that decides
//! how a session is persisted, the session values themselves, the storage
//! drivers, and the per-cookie trust policy with the jar that applies it.
use vstd::prelude::*;

pub mod textmap;
pub mod state;
pub mod value;
pub mod key;
pub mod session;
pub mod error;
pub mod driver;
pub mod redis;
pub mod policy;
pub mod headers;
pub mod jar;
pub mod flow;

pub use driver::{MemoryDriver, NullDriver};
pub use error::{MissingSessionExtension, SessionError, SessionErrorKind};
pub use flow::{PersistAction, SessionCookie, SessionKind};
pub use headers::{Cookie, TypedCookie, cookies_from_request, session_cookie, typed_cookies_from_request};
pub use jar::{CookieJar, CookieJarBuilder};
pub use key::{SessionKey, generate_random_key};
pub use policy::{CookieKind, CookieMap, EncryptionCookiePolicy};
pub use session::{Session, SessionBuilder, SessionData, SessionSubset, SessionSubsetKind};
pub use state::SessionState;
pub use value::JsonValue;

verus! {

} // verus!
