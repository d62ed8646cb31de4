//! Allow-list HTML sanitization: the tag registry, the policy store, and the
//! per-node decisions that a streaming rewriter applies.

pub mod escape;
pub mod tags;
pub mod text;
pub mod validate;
pub mod policy;
pub mod sanitizer;

pub use policy::{
    AllowedProtocol, ElementSanitizer, Sanitizer, SELMA_SANITIZER_ALLOW, SELMA_SANITIZER_REMOVE_CONTENTS,
    SELMA_SANITIZER_WRAP_WHITESPACE,
};
pub use sanitizer::{AttrEdit, AttributePlan, ElementDecision, ElementPlan, Removal, SelmaSanitizer};
pub use tags::{Tag, TAG_COUNT};
pub use validate::{has_allowed_protocol, sanitize_class_attribute};
