use mstr::{compare_bytes, str_compare, str_eq, MCow, MStr};
use std::cmp::Ordering;
use std::collections::hash_map::DefaultHasher;
use std::hash::{Hash, Hasher};

fn hash_of<T: Hash + ?Sized>(v: &T) -> u64 {
    let mut h = DefaultHasher::new();
    v.hash(&mut h);
    h.finish()
}

fn assert_send_sync_helper<T: Send + Sync>() {}

fn same_lt<'a>(a: &MStr<'a>, b: &MStr<'a>, s: &'a str) {
    assert_eq!(a, b);
    assert_eq!(a, s);
    assert_eq!(b, s);
}

fn coerce_any_lt_owned<'a>() -> MStr<'a> {
    MStr::new_owned(String::from("abc"))
}

fn coerce_any_lt_borrowed<'a>() -> MStr<'a> {
    MStr::new_borrowed("123")
}

#[test]
fn correct_repr() {
    assert!(MStr::new_borrowed("abc").is_borrowed());
    assert!(!MStr::new_borrowed("abc").is_owned());

    assert!(MStr::new_owned(String::from("123")).is_owned());
    assert!(!MStr::new_owned(String::from("123")).is_borrowed());
}

#[test]
fn empty() {
    assert!(MStr::new_borrowed("").is_empty());
    assert!(MStr::new_owned(String::from("")).is_empty());
    assert!(MStr::default().is_empty());

    assert_eq!(MStr::new_borrowed("").len(), 0);
    assert_eq!(MStr::new_owned(String::from("")).len(), 0);
    assert_eq!(MStr::default().len(), 0);
}

#[test]
fn len() {
    assert_eq!(MStr::new_borrowed("12345").len(), 5);
    assert_eq!(MStr::new_owned(String::from("12345")).len(), 5);
}

#[test]
fn multibyte_len() {
    let s = "h\u{e9}llo";
    assert_eq!(s.len(), 6);
    assert_eq!(MStr::new_borrowed(s).len(), 6);
    assert!(!MStr::new_borrowed(s).is_empty());
}

#[test]
fn borrowed_stays_borrowed() {
    let s = "1234";
    let mstr = MStr::new_borrowed(s);

    assert_eq!(mstr, s);
    assert_eq!(mstr.as_str(), s);

    assert_eq!(mstr.as_ptr(), MStr::new_borrowed(s).as_ptr());
    assert_eq!(
        MStr::new_borrowed(mstr.as_str()).as_ptr(),
        MStr::new_borrowed(s).as_ptr()
    );
    assert_eq!(mstr.as_str_ptr(), (MStr::new_borrowed(s).as_ptr(), s.len()));

    let clone = mstr.clone();

    assert!(clone.is_borrowed());
    assert!(!clone.is_owned());

    assert_eq!(mstr, clone);
    assert_eq!(mstr.as_ptr(), clone.as_ptr());
    assert_eq!(mstr.as_str_ptr(), clone.as_str_ptr());
}

#[test]
fn into_cow() {
    assert_eq!(MStr::new_borrowed("meow").into_cow(), MCow::Borrowed("meow"));
    assert_eq!(
        MStr::new_owned(String::from("woof")).into_cow(),
        MCow::Owned(String::from("woof"))
    );
    assert_eq!(
        MStr::new_cow(MCow::Borrowed("purr")).into_cow(),
        MCow::Borrowed("purr")
    );
    assert_eq!(
        MStr::new_cow(MCow::Owned("bark".into())).into_cow(),
        MCow::Owned(String::from("bark"))
    );
}

#[test]
fn roundtrip() {
    assert_eq!(MStr::new_borrowed("foo").into_string(), String::from("foo"));
    assert_eq!(
        MStr::new_owned(String::from("bar")).into_string(),
        String::from("bar")
    );
}

#[test]
fn roundtrip_string_ptr() {
    let s = String::from("quack");
    let ptr = MStr::new_borrowed(s.as_str()).as_ptr();
    let mstr = MStr::new_owned(s);

    assert_eq!(mstr, "quack");
    assert_eq!(mstr.as_ptr(), ptr);
    let out = mstr.into_string();
    assert_eq!(MStr::new_borrowed(out.as_str()).as_ptr(), ptr);
}

#[test]
fn owned_clone() {
    let mstr = MStr::new_owned(String::from("quack"));
    let mstr2 = mstr.clone();

    assert!(mstr.is_owned());
    assert!(mstr2.is_owned());
    assert!(!mstr2.is_borrowed());

    assert_eq!(mstr, mstr2);
    assert_ne!(mstr.as_ptr(), mstr2.as_ptr());
    assert_ne!(mstr.as_str_ptr(), mstr2.as_str_ptr());
}

#[test]
fn static_lt() {
    let owned: MStr<'static> = MStr::new_owned(String::from("abc"));
    let borrowed: MStr<'static> = MStr::new_borrowed("abc");

    assert_eq!(owned, borrowed);
}

#[test]
fn covariant_lt() {
    let st1: MStr<'static> = MStr::new_borrowed("oink");
    let st2: MStr<'static> = MStr::new_owned(String::from("oink"));

    same_lt(&st1, &st2, "oink");

    let s = String::from("oink");
    let ms = MStr::new_borrowed(&s);

    same_lt(&st1, &ms, &s);

    assert_eq!(coerce_any_lt_owned(), "abc");
    assert_eq!(coerce_any_lt_borrowed(), "123");
}

#[test]
fn assert_send_sync() {
    assert_send_sync_helper::<MStr>();
    assert_send_sync_helper::<MStr<'static>>();
}

#[test]
fn default_is_empty_borrowed() {
    let d = MStr::default();
    assert!(d.is_borrowed());
    assert!(!d.is_owned());
    assert_eq!(d.len(), 0);
    assert!(d.is_empty());
    assert_eq!(d, "");
}

#[test]
fn mixed_tag_equality() {
    let a = MStr::new_borrowed("foo");
    let b = MStr::new_owned(String::from("foo"));

    assert_eq!(a, b);
    assert!(a.is_borrowed());
    assert!(b.is_owned());
    assert_ne!(a.as_ptr(), b.as_ptr());
}

#[test]
fn owned_into_string_reuses_allocation() {
    let buffer = String::from("bar");
    let p = MStr::new_borrowed(buffer.as_str()).as_ptr();
    let c = MStr::new_owned(buffer);

    let out = c.into_string();
    assert_eq!(out, "bar");
    assert_eq!(MStr::new_borrowed(out.as_str()).as_ptr(), p);
}

#[test]
fn into_boxed_keeps_content() {
    let b = MStr::new_borrowed("foo").into_boxed();
    assert_eq!(&*b, "foo");

    let o = MStr::new_owned(String::from("bar")).into_boxed();
    assert_eq!(&*o, "bar");
}

#[test]
fn ordering_is_content_only() {
    let a = MStr::new_borrowed("abc");
    let b = MStr::new_owned(String::from("abd"));
    let c = MStr::new_borrowed("ab");

    assert_eq!(a.partial_cmp(&b), Some(Ordering::Less));
    assert_eq!(b.partial_cmp(&a), Some(Ordering::Greater));
    assert_eq!(c.partial_cmp(&a), Some(Ordering::Less));
    assert_eq!(a.partial_cmp(&MStr::new_owned(String::from("abc"))), Some(Ordering::Equal));
    assert!(a < b);
    assert!(c < a);
}

#[test]
fn cross_type_comparisons_agree() {
    let m = MStr::new_owned(String::from("quack"));
    assert!(m == "quack");
    assert_eq!(m, String::from("quack"));
    assert!(m != "quark");
    assert_eq!(&*m, "quack");
}

#[test]
fn hash_is_content_only() {
    let borrowed = MStr::new_borrowed("foo");
    let owned = MStr::new_owned(String::from("foo"));

    assert_eq!(hash_of(&borrowed), hash_of(&owned));
    assert_eq!(hash_of(&borrowed), hash_of("foo"));
    assert_ne!(hash_of(&borrowed), hash_of(&MStr::new_borrowed("bar")));
}

#[test]
fn plain_slice_comparison_helpers() {
    assert!(str_eq("abc", "abc"));
    assert!(!str_eq("abc", "abd"));
    assert!(!str_eq("abc", "ab"));

    assert_eq!(str_compare("abc", "abd"), Ordering::Less);
    assert_eq!(str_compare("abd", "abc"), Ordering::Greater);
    assert_eq!(str_compare("abc", "abc"), Ordering::Equal);

    assert_eq!(compare_bytes(b"a", b"ab"), Ordering::Less);
    assert_eq!(compare_bytes(b"ab", b"a"), Ordering::Greater);
    assert_eq!(compare_bytes(b"", b""), Ordering::Equal);
}

#[test]
fn cow_round_trip_preserves_address() {
    let s = "pomp";
    let m = MStr::new_cow(MCow::Borrowed(s));
    assert!(m.is_borrowed());
    assert_eq!(m.as_ptr(), MStr::new_borrowed(s).as_ptr());
    match m.into_cow() {
        MCow::Borrowed(back) => assert_eq!(
            MStr::new_borrowed(back).as_ptr(),
            MStr::new_borrowed(s).as_ptr()
        ),
        MCow::Owned(_) => panic!("expected a borrowed source"),
    }

    let b = String::from("circ");
    let p = MStr::new_borrowed(b.as_str()).as_ptr();
    let m = MStr::new_cow(MCow::Owned(b));
    assert!(m.is_owned());
    assert_eq!(m.as_ptr(), p);
    match m.into_cow() {
        MCow::Owned(back) => assert_eq!(MStr::new_borrowed(back.as_str()).as_ptr(), p),
        MCow::Borrowed(_) => panic!("expected an owned source"),
    }
}

#[test]
fn decoded_text_is_owned() {
    let buffer = String::from("\"baz\"");
    let decoded: String = serde_json::from_str(&buffer).unwrap();
    let m: MStr<'static> = MStr::new_owned(decoded);

    assert!(m.is_owned());
    assert_eq!(m, "baz");
}
