use crate::compare::{
    bytes_cmp, lemma_bytes_cmp_antisymmetric, lemma_bytes_cmp_equal_iff,
    lemma_bytes_cmp_transitive, lemma_encode_utf8_injective, lemma_encode_utf8_len_zero,
    str_compare, str_eq,
};
use crate::cow::MCow;
use core::cmp::Ordering;
use vstd::prelude::*;
use vstd::std_specs::cmp::{PartialEqSpec, PartialOrdSpec};
use vstd::utf8::encode_utf8;

verus! {

/// An immutable string value that is either a borrowed slice or an owned
/// heap allocation, told apart by a runtime tag rather than by its type.
///
/// Exactly one of [`is_borrowed`](MStr::is_borrowed) and
/// [`is_owned`](MStr::is_owned) holds for every value. The content never
/// changes after construction; conversions consume the value and hand the
/// underlying allocation (or slice) on without copying wherever the tag
/// allows it.
#[derive(Debug)]
pub struct MStr<'a> {
    inner: MCow<'a>,
}

impl<'a> View for MStr<'a> {
    type V = Seq<char>;

    open spec fn view(&self) -> Seq<char> {
        self.repr()@
    }
}

impl<'a> MStr<'a> {
    /// The underlying slice-or-allocation this value stands for.
    pub closed spec fn repr(&self) -> MCow<'a> {
        self.inner
    }

    /// The value over the given source: the specification-level
    /// counterpart of [`new_cow`](MStr::new_cow).
    pub closed spec fn spec_new(c: MCow<'a>) -> MStr<'a> {
        MStr { inner: c }
    }

    /// Whether this value carries its own allocation.
    pub open spec fn spec_is_owned(&self) -> bool {
        self.repr() is Owned
    }

    /// The length of the content in UTF-8 bytes.
    pub open spec fn spec_byte_len(&self) -> nat {
        encode_utf8(self@).len()
    }

    /// Creates a borrowed `MStr` over `s`: no allocation, no copy.
    pub fn new_borrowed(s: &'a str) -> (r: MStr<'a>)
        ensures
            r.repr() == MCow::Borrowed(s),
            r@ == s@,
            !r.spec_is_owned(),
    {
        MStr { inner: MCow::Borrowed(s) }
    }

    /// Creates an owned `MStr` from `s`, reusing its allocation verbatim.
    /// The result may have any lifetime, including `'static`.
    pub fn new_owned(s: String) -> (r: MStr<'a>)
        ensures
            r.repr() == MCow::Owned(s),
            r@ == s@,
            r.spec_is_owned(),
    {
        MStr { inner: MCow::Owned(s) }
    }

    /// Creates an `MStr` from either kind of source: borrowed input gives a
    /// borrowed result over the same slice, owned input gives an owned
    /// result over the same allocation.
    pub fn new_cow(s: MCow<'a>) -> (r: MStr<'a>)
        ensures
            r.repr() == s,
            r@ == s@,
            r.spec_is_owned() == s.spec_is_owned(),
    {
        MStr { inner: s }
    }

    /// Whether this value carries its own allocation. Mutually exclusive
    /// and exhaustive with [`is_borrowed`](MStr::is_borrowed).
    pub fn is_owned(&self) -> (r: bool)
        ensures
            r == self.spec_is_owned(),
    {
        match &self.inner {
            MCow::Owned(_) => true,
            MCow::Borrowed(_) => false,
        }
    }

    /// Whether this value borrows text owned elsewhere. Mutually exclusive
    /// and exhaustive with [`is_owned`](MStr::is_owned).
    pub fn is_borrowed(&self) -> (r: bool)
        ensures
            r == !self.spec_is_owned(),
    {
        match &self.inner {
            MCow::Owned(_) => false,
            MCow::Borrowed(_) => true,
        }
    }

    /// The content as a borrowed slice, valid while `self` is.
    pub fn as_str(&self) -> (r: &str)
        ensures
            r@ == self@,
    {
        match &self.inner {
            MCow::Borrowed(s) => s,
            MCow::Owned(s) => s.as_str(),
        }
    }

    /// The content as its UTF-8 bytes, valid while `self` is.
    pub fn as_bytes(&self) -> (r: &[u8])
        ensures
            r@ == encode_utf8(self@),
    {
        self.as_str().as_bytes()
    }

    /// The length of the content in bytes.
    pub fn len(&self) -> (r: usize)
        ensures
            r == self.spec_byte_len(),
    {
        self.as_bytes().len()
    }

    /// Whether the content is empty.
    pub fn is_empty(&self) -> (r: bool)
        ensures
            r == (self@.len() == 0),
            r == (self.spec_byte_len() == 0),
    {
        proof {
            lemma_encode_utf8_len_zero(self@);
        }
        self.len() == 0
    }

    /// Converts this value into a `String`, consuming it. An owned value
    /// hands its `String` on unchanged, allocation and all; a borrowed
    /// value is copied to the heap.
    pub fn into_string(self) -> (r: String)
        ensures
            r@ == self@,
            self.spec_is_owned() ==> r == self.repr()->Owned_0,
    {
        match self.inner {
            MCow::Borrowed(s) => s.to_owned(),
            MCow::Owned(s) => s,
        }
    }

    /// Converts this value into a `Box<str>`, consuming it. An owned value
    /// keeps its allocation where no excess capacity forces a move; a
    /// borrowed value is copied to the heap.
    pub fn into_boxed(self) -> (r: Box<str>)
        ensures
            r@ == self@,
    {
        string_into_boxed(self.into_string())
    }

    /// Converts this value into either kind of source, consuming it: the
    /// underlying slice or allocation is handed on exactly as it is
    /// stored, with no copy for either tag.
    pub fn into_cow(self) -> (r: MCow<'a>)
        ensures
            r == self.repr(),
    {
        self.inner
    }

    /// The machine address of the first byte of the content. The address
    /// comes from the allocator, so nothing is stated of its value; it is
    /// only to be read, never written through.
    pub fn as_ptr(&self) -> usize {
        str_address(self.as_str())
    }

    /// The raw parts of a slice pointer to the content: its machine
    /// address and its length in bytes. Only the length is pinned down;
    /// the address comes from the allocator.
    pub fn as_str_ptr(&self) -> (r: (usize, usize))
        ensures
            r.1 == self.spec_byte_len(),
    {
        (self.as_ptr(), self.len())
    }
}

impl<'a> Clone for MStr<'a> {
    /// A borrowed value clones to a borrowed value over the same slice;
    /// an owned value clones to an owned value with a fresh copy of the
    /// content, never sharing the allocation.
    fn clone(&self) -> (r: Self)
        ensures
            r@ == self@,
            r.spec_is_owned() == self.spec_is_owned(),
            !self.spec_is_owned() ==> r.repr() == self.repr(),
    {
        match &self.inner {
            MCow::Borrowed(s) => MStr { inner: MCow::Borrowed(*s) },
            MCow::Owned(s) => MStr { inner: MCow::Owned(s.clone()) },
        }
    }
}

impl Default for MStr<'_> {
    /// An empty borrowed value, constructible for any lifetime.
    fn default() -> (r: Self)
        ensures
            r@ == Seq::<char>::empty(),
            r.spec_byte_len() == 0,
            !r.spec_is_owned(),
    {
        proof {
            reveal_strlit("");
        }
        MStr { inner: MCow::Borrowed("") }
    }
}

impl<'a> PartialEq for MStr<'a> {
    /// Equality of content alone: the tag and the address play no part.
    fn eq(&self, other: &Self) -> (r: bool) {
        str_eq(self.as_str(), other.as_str())
    }
}

impl<'a> vstd::std_specs::cmp::PartialEqSpecImpl for MStr<'a> {
    open spec fn obeys_eq_spec() -> bool {
        true
    }

    open spec fn eq_spec(&self, other: &MStr<'a>) -> bool {
        self@ == other@
    }
}

impl<'a> Eq for MStr<'a> {}

impl<'a> PartialEq<str> for MStr<'a> {
    /// Agrees with same-type equality: content alone decides.
    fn eq(&self, other: &str) -> (r: bool) {
        str_eq(self.as_str(), other)
    }
}

impl<'a> vstd::std_specs::cmp::PartialEqSpecImpl<str> for MStr<'a> {
    open spec fn obeys_eq_spec() -> bool {
        true
    }

    open spec fn eq_spec(&self, other: &str) -> bool {
        self@ == other@
    }
}

impl<'a, 'b> PartialEq<&'b str> for MStr<'a> {
    /// Agrees with same-type equality: content alone decides.
    fn eq(&self, other: &&'b str) -> (r: bool) {
        str_eq(self.as_str(), other)
    }
}

impl<'a, 'b> vstd::std_specs::cmp::PartialEqSpecImpl<&'b str> for MStr<'a> {
    open spec fn obeys_eq_spec() -> bool {
        true
    }

    open spec fn eq_spec(&self, other: &&'b str) -> bool {
        self@ == other@
    }
}

impl<'a> PartialEq<String> for MStr<'a> {
    /// Agrees with same-type equality: content alone decides.
    fn eq(&self, other: &String) -> (r: bool) {
        str_eq(self.as_str(), other.as_str())
    }
}

impl<'a> vstd::std_specs::cmp::PartialEqSpecImpl<String> for MStr<'a> {
    open spec fn obeys_eq_spec() -> bool {
        true
    }

    open spec fn eq_spec(&self, other: &String) -> bool {
        self@ == other@
    }
}

impl<'a> PartialOrd for MStr<'a> {
    /// Total lexicographic byte order on the content alone.
    fn partial_cmp(&self, other: &Self) -> (r: Option<Ordering>) {
        Some(str_compare(self.as_str(), other.as_str()))
    }
}

impl<'a> vstd::std_specs::cmp::PartialOrdSpecImpl for MStr<'a> {
    open spec fn obeys_partial_cmp_spec() -> bool {
        true
    }

    open spec fn partial_cmp_spec(&self, other: &MStr<'a>) -> Option<Ordering> {
        Some(bytes_cmp(encode_utf8(self@), encode_utf8(other@)))
    }
}

impl<'a> PartialOrd<str> for MStr<'a> {
    /// Agrees with same-type ordering: content alone decides.
    fn partial_cmp(&self, other: &str) -> (r: Option<Ordering>) {
        Some(str_compare(self.as_str(), other))
    }
}

impl<'a> vstd::std_specs::cmp::PartialOrdSpecImpl<str> for MStr<'a> {
    open spec fn obeys_partial_cmp_spec() -> bool {
        true
    }

    open spec fn partial_cmp_spec(&self, other: &str) -> Option<Ordering> {
        Some(bytes_cmp(encode_utf8(self@), encode_utf8(other@)))
    }
}

impl<'a> From<&'a str> for MStr<'a> {
    /// The same construction as [`new_borrowed`](MStr::new_borrowed).
    fn from(v: &'a str) -> (r: Self) {
        MStr::new_borrowed(v)
    }
}

impl<'a> vstd::std_specs::convert::FromSpecImpl<&'a str> for MStr<'a> {
    open spec fn obeys_from_spec() -> bool {
        true
    }

    open spec fn from_spec(v: &'a str) -> MStr<'a> {
        MStr::spec_new(MCow::Borrowed(v))
    }
}

impl<'a> From<String> for MStr<'a> {
    /// The same construction as [`new_owned`](MStr::new_owned).
    fn from(v: String) -> (r: Self) {
        MStr::new_owned(v)
    }
}

impl<'a> vstd::std_specs::convert::FromSpecImpl<String> for MStr<'a> {
    open spec fn obeys_from_spec() -> bool {
        true
    }

    open spec fn from_spec(v: String) -> MStr<'a> {
        MStr::spec_new(MCow::Owned(v))
    }
}

impl<'a> From<MCow<'a>> for MStr<'a> {
    /// The same construction as [`new_cow`](MStr::new_cow).
    fn from(v: MCow<'a>) -> (r: Self) {
        MStr::new_cow(v)
    }
}

impl<'a> vstd::std_specs::convert::FromSpecImpl<MCow<'a>> for MStr<'a> {
    open spec fn obeys_from_spec() -> bool {
        true
    }

    open spec fn from_spec(v: MCow<'a>) -> MStr<'a> {
        MStr::spec_new(v)
    }
}

impl<'a> From<MStr<'a>> for MCow<'a> {
    /// The same conversion as [`into_cow`](MStr::into_cow).
    fn from(v: MStr<'a>) -> (r: Self) {
        v.into_cow()
    }
}

impl<'a> vstd::std_specs::convert::FromSpecImpl<MStr<'a>> for MCow<'a> {
    open spec fn obeys_from_spec() -> bool {
        true
    }

    open spec fn from_spec(v: MStr<'a>) -> MCow<'a> {
        v.repr()
    }
}

impl<'a> core::ops::Deref for MStr<'a> {
    type Target = str;

    /// The content as a borrowed slice, valid while `self` is.
    fn deref(&self) -> (r: &str)
        ensures
            r@ == self@,
    {
        self.as_str()
    }
}

impl<'a> core::hash::Hash for MStr<'a> {
    /// Relies on `str::hash`: hashes the content alone, exactly as the
    /// plain slice hashes, so equal content hashes equally whatever the
    /// ownership tag.
    #[verifier::external_body]
    fn hash<H: core::hash::Hasher>(&self, state: &mut H) {
        self.as_str().hash(state)
    }
}

/// What the specification-level constructor builds: `spec_new(c)` is the
/// value whose representation, content, and tag are those of `c`.
pub proof fn lemma_spec_new(c: MCow<'_>)
    ensures
        MStr::spec_new(c).repr() == c,
        MStr::spec_new(c)@ == c@,
        MStr::spec_new(c).spec_is_owned() == c.spec_is_owned(),
{
}

/// Comparison is defined on content alone: values with equal content
/// compare the same way, whatever their ownership tags or addresses.
pub proof fn lemma_cmp_ignores_tag(a1: &MStr, b1: &MStr, a2: &MStr, b2: &MStr)
    requires
        a1@ == a2@,
        b1@ == b2@,
    ensures
        a1.eq_spec(b1) == a2.eq_spec(b2),
        a1.partial_cmp_spec(b1) == a2.partial_cmp_spec(b2),
{
}

/// Equality holds exactly on equal content, and the ordering is
/// consistent with it: `Equal` exactly when the contents are equal.
pub proof fn lemma_eq_consistent_with_cmp(a: &MStr, b: &MStr)
    ensures
        a.eq_spec(b) <==> a@ == b@,
        (a.partial_cmp_spec(b) == Some(Ordering::Equal)) <==> a@ == b@,
{
    lemma_bytes_cmp_equal_iff(encode_utf8(a@), encode_utf8(b@));
    if encode_utf8(a@) == encode_utf8(b@) {
        lemma_encode_utf8_injective(a@, b@);
    }
}

/// Comparing against a plain slice agrees with comparing against any
/// value of this type that holds the slice's content.
pub proof fn lemma_cross_type_agrees(a: &MStr, s: &str, b: &MStr)
    requires
        b@ == s@,
    ensures
        a.eq_spec(s) == a.eq_spec(b),
        a.partial_cmp_spec(s) == a.partial_cmp_spec(b),
{
}

/// The content ordering is a total order: every pair of values is
/// ordered, swapping the sides swaps `Less` and `Greater`, and the order
/// is transitive.
pub proof fn lemma_order_is_total(a: &MStr, b: &MStr, c: &MStr)
    ensures
        a.partial_cmp_spec(b) is Some,
        (a.partial_cmp_spec(b) == Some(Ordering::Less)) <==> (b.partial_cmp_spec(a) == Some(
            Ordering::Greater,
        )),
        a.partial_cmp_spec(b) == Some(Ordering::Less) && b.partial_cmp_spec(c) == Some(
            Ordering::Less,
        ) ==> a.partial_cmp_spec(c) == Some(Ordering::Less),
{
    lemma_bytes_cmp_antisymmetric(encode_utf8(a@), encode_utf8(b@));
    if bytes_cmp(encode_utf8(a@), encode_utf8(b@)) == Ordering::Less && bytes_cmp(
        encode_utf8(b@),
        encode_utf8(c@),
    ) == Ordering::Less {
        lemma_bytes_cmp_transitive(encode_utf8(a@), encode_utf8(b@), encode_utf8(c@));
    }
}

/// Taking a value apart with [`into_cow`](MStr::into_cow) and rebuilding
/// it with [`new_cow`](MStr::new_cow) reproduces the ownership tag, the
/// content, and the underlying value exactly, for both tags; the
/// preconditions restate those two functions' postconditions.
pub proof fn lemma_cow_round_trip<'a>(m: &MStr<'a>, c: MCow<'a>, m2: &MStr<'a>)
    requires
        c == m.repr(),
        m2.repr() == c,
    ensures
        m2.repr() == m.repr(),
        m2@ == m@,
        m2.spec_is_owned() == m.spec_is_owned(),
{
}

/// Relies on `str::as_ptr` for the machine address of the first byte of a
/// slice. Addresses depend on the allocator, so nothing is stated of the
/// result.
#[verifier::external_body]
fn str_address(s: &str) -> usize {
    s.as_ptr() as usize
}

/// Relies on `String::into_boxed_str`: the same text, with any excess
/// capacity dropped.
#[verifier::external_body]
fn string_into_boxed(s: String) -> (r: Box<str>)
    ensures
        r@ == s@,
{
    s.into_boxed_str()
}

} // verus!
