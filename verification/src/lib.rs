//! A dispatch bridge between native Rust objects and an embedded scripting
//! runtime.
//!
//! A native type describes itself through a [`Class`](descriptor::Class)
//! descriptor: its fields, its methods, their parameter and return types, and
//! whether each method is static.  Plugging an object into the runtime mirrors
//! the descriptor as a scripting class: every method gains a script-callable
//! entry, a class constant smuggles the method's function handle through the
//! runtime's own value system, and a global constant binds the instance.
//! At call time a dispatch shim recovers the handles, marshalls the argument
//! values, invokes the native method, and applies the default-return-value
//! policy.
//!
//! Raw pointers never cross the boundary: a [`HandleTable`](handle::HandleTable)
//! issues opaque integer handles for objects and functions, so a stale
//! reference is a reportable error instead of undefined behaviour.

pub mod animal;
pub mod descriptor;
pub mod handle;
pub mod interp;
pub mod marshall;
pub mod parse;
pub mod player;
pub mod pluggable;
pub mod text;
pub mod value;
pub mod vm;
