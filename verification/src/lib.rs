//! A dual-mode string value: either a non-owning view into text owned
//! elsewhere, or an owning handle to a heap allocation, told apart by a tag.
//! Every operation is read-only; a "change" always produces a new value.

mod compare;
mod cow;
mod dual;

pub use compare::bytes_cmp;
pub use compare::compare_bytes;
pub use compare::lemma_bytes_cmp_antisymmetric;
pub use compare::lemma_bytes_cmp_equal_iff;
pub use compare::lemma_bytes_cmp_transitive;
pub use compare::str_compare;
pub use compare::str_eq;
pub use cow::MCow;
pub use dual::lemma_cmp_ignores_tag;
pub use dual::lemma_cow_round_trip;
pub use dual::lemma_cross_type_agrees;
pub use dual::lemma_eq_consistent_with_cmp;
pub use dual::lemma_order_is_total;
pub use dual::lemma_spec_new;
pub use dual::MStr;
