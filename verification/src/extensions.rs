//! The fixed list of image extensions, and the test of a file's extension
//! against it without regard to ASCII case.

use crate::paths::{encoded_bytes, encoded_bytes_of, extension, extension_of};
use std::path::PathBuf;
use vstd::prelude::*;
use vstd::string::StringSliceAdditionalSpecFns;

verus! {

/// An ASCII upper-case letter turned to lower case; any other byte as it is.
pub open spec fn ascii_lower(b: u8) -> u8 {
    if 0x41 <= b && b <= 0x5a {
        (b + 0x20) as u8
    } else {
        b
    }
}

/// Two byte strings that differ at most in the case of ASCII letters.
pub open spec fn eq_ignore_ascii_case(a: Seq<u8>, b: Seq<u8>) -> bool {
    &&& a.len() == b.len()
    &&& forall|i: int| 0 <= i < a.len() ==> ascii_lower(#[trigger] a[i]) == ascii_lower(b[i])
}

/// The extensions of the files that a gallery keeps.
pub open spec fn allowed_extensions() -> Seq<Seq<u8>> {
    seq![
        "apng".spec_bytes(),
        "avif".spec_bytes(),
        "gif".spec_bytes(),
        "jpg".spec_bytes(),
        "jpeg".spec_bytes(),
        "jpe".spec_bytes(),
        "jif".spec_bytes(),
        "jfif".spec_bytes(),
        "png".spec_bytes(),
        "svg".spec_bytes(),
        "webp".spec_bytes(),
    ]
}

/// An extension that matches one of the allowed ones, whatever its case.
pub open spec fn is_image_extension(ext: Seq<u8>) -> bool {
    exists|i: int|
        0 <= i < allowed_extensions().len() && eq_ignore_ascii_case(
            ext,
            #[trigger] allowed_extensions()[i],
        )
}

/// A path that has an extension, and one of an image.
pub open spec fn is_image_path(path: PathBuf) -> bool {
    match extension_of(path) {
        Some(ext) => is_image_extension(encoded_bytes_of(ext)),
        None => false,
    }
}

/// The allowed extensions byte by byte: `apng`, `avif`, `gif`, `jpg`,
/// `jpeg`, `jpe`, `jif`, `jfif`, `png`, `svg` and `webp` in ASCII.
pub proof fn lemma_allowed_extensions()
    ensures
        allowed_extensions() == seq![
            seq![0x61u8, 0x70u8, 0x6eu8, 0x67u8],
            seq![0x61u8, 0x76u8, 0x69u8, 0x66u8],
            seq![0x67u8, 0x69u8, 0x66u8],
            seq![0x6au8, 0x70u8, 0x67u8],
            seq![0x6au8, 0x70u8, 0x65u8, 0x67u8],
            seq![0x6au8, 0x70u8, 0x65u8],
            seq![0x6au8, 0x69u8, 0x66u8],
            seq![0x6au8, 0x66u8, 0x69u8, 0x66u8],
            seq![0x70u8, 0x6eu8, 0x67u8],
            seq![0x73u8, 0x76u8, 0x67u8],
            seq![0x77u8, 0x65u8, 0x62u8, 0x70u8],
        ],
{
    lemma_ascii_word("apng");
    lemma_ascii_word("avif");
    lemma_ascii_word("gif");
    lemma_ascii_word("jpg");
    lemma_ascii_word("jpeg");
    lemma_ascii_word("jpe");
    lemma_ascii_word("jif");
    lemma_ascii_word("jfif");
    lemma_ascii_word("png");
    lemma_ascii_word("svg");
    lemma_ascii_word("webp");
    reveal_strlit("apng");
    reveal_strlit("avif");
    reveal_strlit("gif");
    reveal_strlit("jpg");
    reveal_strlit("jpeg");
    reveal_strlit("jpe");
    reveal_strlit("jif");
    reveal_strlit("jfif");
    reveal_strlit("png");
    reveal_strlit("svg");
    reveal_strlit("webp");
    assert("apng".spec_bytes() =~= seq![0x61u8, 0x70u8, 0x6eu8, 0x67u8]);
    assert("avif".spec_bytes() =~= seq![0x61u8, 0x76u8, 0x69u8, 0x66u8]);
    assert("gif".spec_bytes() =~= seq![0x67u8, 0x69u8, 0x66u8]);
    assert("jpg".spec_bytes() =~= seq![0x6au8, 0x70u8, 0x67u8]);
    assert("jpeg".spec_bytes() =~= seq![0x6au8, 0x70u8, 0x65u8, 0x67u8]);
    assert("jpe".spec_bytes() =~= seq![0x6au8, 0x70u8, 0x65u8]);
    assert("jif".spec_bytes() =~= seq![0x6au8, 0x69u8, 0x66u8]);
    assert("jfif".spec_bytes() =~= seq![0x6au8, 0x66u8, 0x69u8, 0x66u8]);
    assert("png".spec_bytes() =~= seq![0x70u8, 0x6eu8, 0x67u8]);
    assert("svg".spec_bytes() =~= seq![0x73u8, 0x76u8, 0x67u8]);
    assert("webp".spec_bytes() =~= seq![0x77u8, 0x65u8, 0x62u8, 0x70u8]);
}

/// The bytes of a word of ASCII letters are its letters.
proof fn lemma_ascii_word(word: &str)
    ensures
        vstd::string::is_ascii(word) ==> word.spec_bytes() == Seq::new(
            word@.len(),
            |i: int| word@[i] as u8,
        ),
{
    vstd::string::is_ascii_spec_bytes(word);
}

/// Lower-cases one byte.
pub fn to_ascii_lower(b: u8) -> (r: u8)
    ensures
        r == ascii_lower(b),
{
    if 0x41 <= b && b <= 0x5a {
        b + 0x20
    } else {
        b
    }
}

/// Compares two byte strings without regard to ASCII case.
pub fn bytes_eq_ignore_ascii_case(a: &[u8], b: &[u8]) -> (r: bool)
    ensures
        r == eq_ignore_ascii_case(a@, b@),
{
    if a.len() != b.len() {
        return false;
    }
    let mut i: usize = 0;
    while i < a.len()
        invariant
            a.len() == b.len(),
            i <= a.len(),
            forall|j: int| 0 <= j < i ==> ascii_lower(#[trigger] a@[j]) == ascii_lower(b@[j]),
        decreases a.len() - i,
    {
        if to_ascii_lower(a[i]) != to_ascii_lower(b[i]) {
            return false;
        }
        i += 1;
    }
    true
}

/// The allowed extensions, in the order of `allowed_extensions`.
pub fn allowed_img_extensions() -> (words: Vec<&'static str>)
    ensures
        words@.len() == allowed_extensions().len(),
        forall|i: int|
            0 <= i < words@.len() ==> (#[trigger] words@[i]).spec_bytes() == allowed_extensions()[i],
{
    vec!["apng", "avif", "gif", "jpg", "jpeg", "jpe", "jif", "jfif", "png", "svg", "webp"]
}

/// Tells whether `ext` is the extension of an image.
pub fn is_allowed_extension(ext: &[u8]) -> (r: bool)
    ensures
        r == is_image_extension(ext@),
{
    let words = allowed_img_extensions();
    let mut i: usize = 0;
    while i < words.len()
        invariant
            i <= words@.len(),
            words@.len() == allowed_extensions().len(),
            forall|j: int|
                0 <= j < words@.len() ==> (#[trigger] words@[j]).spec_bytes()
                    == allowed_extensions()[j],
            forall|j: int| 0 <= j < i ==> !eq_ignore_ascii_case(ext@, #[trigger] allowed_extensions()[j]),
        decreases words@.len() - i,
    {
        if bytes_eq_ignore_ascii_case(ext, words[i].as_bytes()) {
            assert(eq_ignore_ascii_case(ext@, allowed_extensions()[i as int]));
            return true;
        }
        i += 1;
    }
    false
}

/// Tells whether the file at `path` is kept: it has an extension, and one
/// of an image.
pub fn has_image_extension(path: &PathBuf) -> (r: bool)
    ensures
        r == is_image_path(*path),
{
    match extension(path) {
        Some(ext) => is_allowed_extension(encoded_bytes(&ext).as_slice()),
        None => false,
    }
}

} // verus!
