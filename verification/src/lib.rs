//! Introspect a GraphQL schema and render it as SDL text.
//!
//! The library models the shape of a GraphQL introspection response and
//! renders it into Schema Definition Language, type by type.  Executing the
//! introspection query over the network and writing the rendered text to
//! disk are the surrounding application's job; the model, the
//! implements-index and the renderer live here and are verified.

use vstd::prelude::*;

pub mod assoc;
pub mod error;
pub mod gqlerror;
pub mod index;
pub mod introspector;
pub mod model;
pub mod sdl;

verus! {

pub use crate::error::GQLInspectorError;
pub use crate::gqlerror::GQLError;
pub use crate::gqlerror::GraphQLClientError;
pub use crate::introspector::GQLIntrospector;

} // verus!
