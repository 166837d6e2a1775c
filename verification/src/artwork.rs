//! Artwork URLs: the display size, and the tag that carries a URL inside a track path.

use crate::text::{
    find_from, has_text, joined, lacks, law_replace_joins_the_pieces, lemma_find_from,
    lemma_find_from_is, lemma_occurs_chars, occurs_at, replace, replace_from, split_from,
};
use vstd::prelude::*;
use vstd::string::*;
use vstd::utf8::*;

verus! {

/// An artwork URL with its small size token swapped for the 500 pixel one.
pub open spec fn upscaled(url: Seq<char>) -> Seq<char> {
    replace_from(url, "-large."@, "-t500x500."@, 0)
}

/// Bumps an artwork URL (`...-large.jpg`, 100 pixels) up to a display-friendly 500 pixels.
/// A URL without the size token stays as it is.
pub fn upscale_artwork(url: &str) -> (r: String)
    ensures
        r@ == upscaled(url@),
{
    proof {
        reveal_strlit("-large.");
    }
    replace(url, "-large.", "-t500x500.")
}

/// The lowercase hexadecimal digit of `d`, which is less than sixteen.
pub open spec fn hex_digit(d: int) -> char {
    if d < 10 {
        (48 + d) as char
    } else {
        (87 + d) as char
    }
}

/// Two lowercase hexadecimal digits for each byte, the high half first.
pub open spec fn hex_text(bytes: Seq<u8>) -> Seq<char> {
    Seq::new(
        2 * bytes.len(),
        |i: int|
            if i % 2 == 0 {
                hex_digit(bytes[i / 2] as int / 16)
            } else {
                hex_digit(bytes[i / 2] as int % 16)
            },
    )
}

/// `hex::encode`: the string has two digits for each byte of `data`, in order, the high half
/// of the byte first, and the digits above nine are the letters `a` to `f`. Nothing is said of
/// a process that has no memory left for it.
#[verifier::external_body]
fn hex_encode(data: &[u8]) -> (r: String)
    ensures
        r@ == hex_text(data@),
{
    hex::encode(data)
}

/// The tag that stands for a remote artwork URL: `urlhex_` and the URL's UTF-8 bytes in
/// hexadecimal.
pub open spec fn cover_tag(url: Seq<char>) -> Seq<char> {
    "urlhex_"@ + hex_text(encode_utf8(url))
}

/// Encodes a remote artwork URL into the tag that the cover resolver decodes.
pub fn encode_cover_url(url: &str) -> (r: String)
    ensures
        r@ == cover_tag(url@),
{
    let mut r = "urlhex_".to_string();
    r.append(hex_encode(url.as_bytes()).as_str());
    r
}

/// A URL without the small size token stays as it is.
pub proof fn law_upscale_keeps_other_urls(url: Seq<char>)
    requires
        !has_text(url, "-large."@),
    ensures
        upscaled(url) == url,
{
    lemma_find_from(url, "-large."@, 0);
    assert(url.subrange(0, url.len() as int) =~= url);
}

/// The small size token is swapped where it stands, and the rest of the URL stays as it is.
pub proof fn law_upscale_swaps_token(before: Seq<char>, behind: Seq<char>)
    requires
        !has_text(before, "-large."@),
        !has_text(behind, "-large."@),
    ensures
        upscaled(before + "-large."@ + behind) == before + "-t500x500."@ + behind,
{
    reveal_strlit("-large.");
    let small = "-large."@;
    let url = before + small + behind;
    let n = before.len() as int;
    assert(url.subrange(n, n + 7) =~= small);
    assert forall|j: int| 0 <= j < n implies !#[trigger] occurs_at(url, small, j) by {
        if occurs_at(url, small, j) {
            lemma_occurs_chars(url, small, j);
            if j + 7 <= n {
                assert(before.subrange(j, j + 7) =~= url.subrange(j, j + 7));
                assert(occurs_at(before, small, j));
            } else {
                assert(url[n] == small[0]);
                assert(url[j + (n - j)] == small[n - j]);
            }
        }
    }
    lemma_find_from_is(url, small, 0, n);
    lemma_find_from(url, small, n + 7);
    if let Some(j) = find_from(url, small, n + 7) {
        assert(behind.subrange(j - n - 7, j - n) =~= url.subrange(j, j + 7));
        assert(occurs_at(behind, small, j - n - 7));
    }
    assert(url.subrange(0, n) =~= before);
    assert(url.subrange(n + 7, url.len() as int) =~= behind);
    assert(replace_from(url, small, "-t500x500."@, n + 7) == behind);
}

/// Behind every position, no small size token is left once it is replaced.
proof fn lemma_replaced_lacks_token(url: Seq<char>, from: int)
    requires
        0 <= from <= url.len(),
    ensures
        !has_text(replace_from(url, "-large."@, "-t500x500."@, from), "-large."@),
    decreases url.len() - from,
{
    reveal_strlit("-large.");
    reveal_strlit("-t500x500.");
    let small = "-large."@;
    let large = "-t500x500."@;
    let r = replace_from(url, small, large, from);
    lemma_find_from(url, small, from);
    match find_from(url, small, from) {
        Some(i) => {
            lemma_replaced_lacks_token(url, i + 7);
            let rest = replace_from(url, small, large, i + 7);
            let n = i - from;
            assert(r == url.subrange(from, i) + large + rest);
            assert forall|j: int| !occurs_at(r, small, j) by {
                if occurs_at(r, small, j) {
                    lemma_occurs_chars(r, small, j);
                    if j + 7 <= n {
                        assert(url.subrange(from + j, from + j + 7) =~= r.subrange(j, j + 7));
                        assert(occurs_at(url, small, from + j));
                    } else if j < n {
                        assert(r[n] == large[0]);
                        assert(r[j + (n - j)] == small[n - j]);
                    } else if j == n {
                        assert(r[j + 1] == small[1]);
                        assert(r[n + 1] == large[1]);
                    } else if j < n + 10 {
                        assert(r[j + 0] == small[0]);
                        assert(r[j] == large[j - n]);
                    } else {
                        assert(rest.subrange(j - n - 10, j - n - 3) =~= r.subrange(j, j + 7));
                        assert(occurs_at(rest, small, j - n - 10));
                    }
                }
            }
        },
        None => {
            assert forall|j: int| !occurs_at(r, small, j) by {
                if occurs_at(r, small, j) {
                    assert(url.subrange(from + j, from + j + 7) =~= r.subrange(j, j + 7));
                    assert(occurs_at(url, small, from + j));
                }
            }
        },
    }
}

/// No small size token is left in an upscaled URL, so that upscaling it again changes nothing.
pub proof fn law_upscale_idempotent(url: Seq<char>)
    ensures
        !has_text(upscaled(url), "-large."@),
        upscaled(upscaled(url)) == upscaled(url),
{
    lemma_replaced_lacks_token(url, 0);
    law_upscale_keeps_other_urls(upscaled(url));
}

/// The value of a lowercase hexadecimal digit.
pub open spec fn hex_value(c: char) -> int {
    if c <= '9' {
        c as int - 48
    } else {
        c as int - 87
    }
}

/// The bytes that pairs of hexadecimal digits stand for.
pub open spec fn hex_bytes(s: Seq<char>) -> Seq<u8> {
    Seq::new(
        s.len() / 2,
        |i: int| (16 * hex_value(s[2 * i]) + hex_value(s[2 * i + 1])) as u8,
    )
}

/// Reading the hexadecimal digits of some bytes gives the bytes back.
pub proof fn lemma_hex_bytes(bytes: Seq<u8>)
    ensures
        hex_bytes(hex_text(bytes)) == bytes,
{
    let s = hex_text(bytes);
    assert forall|i: int| 0 <= i < bytes.len() implies #[trigger] hex_bytes(s)[i] == bytes[i] by {
        let b = bytes[i] as int;
        assert((2 * i) % 2 == 0 && (2 * i) / 2 == i);
        assert((2 * i + 1) % 2 == 1 && (2 * i + 1) / 2 == i);
        assert(s[2 * i] == hex_digit(b / 16));
        assert(s[2 * i + 1] == hex_digit(b % 16));
        assert(hex_value(hex_digit(b / 16)) == b / 16);
        assert(hex_value(hex_digit(b % 16)) == b % 16);
    }
    assert(hex_bytes(s) =~= bytes);
}

/// A cover tag can be decoded: behind `urlhex_` stand the UTF-8 bytes of the URL, in pairs of
/// hexadecimal digits.
pub proof fn law_cover_tag_decodes(url: Seq<char>)
    ensures
        cover_tag(url).take(7) == "urlhex_"@,
        decode_utf8(hex_bytes(cover_tag(url).skip(7))) == url,
{
    reveal_strlit("urlhex_");
    let tag = cover_tag(url);
    assert(tag.take(7) =~= "urlhex_"@);
    assert(tag.skip(7) =~= hex_text(encode_utf8(url)));
    lemma_hex_bytes(encode_utf8(url));
    encode_utf8_decode_utf8(url);
}

/// Two URLs with the same cover tag are the same URL.
pub proof fn law_cover_tag_injective(a: Seq<char>, b: Seq<char>)
    requires
        cover_tag(a) == cover_tag(b),
    ensures
        a == b,
{
    law_cover_tag_decodes(a);
    law_cover_tag_decodes(b);
}

/// A cover tag holds no colon, so that it is one segment of a path.
pub proof fn lemma_cover_tag_lacks_colon(url: Seq<char>)
    ensures
        lacks(cover_tag(url), ':'),
{
    reveal_strlit("urlhex_");
    let tag = cover_tag(url);
    let bytes = encode_utf8(url);
    assert forall|i: int| 0 <= i < tag.len() implies #[trigger] tag[i] != ':' by {
        if i >= 7 {
            let k = i - 7;
            let b = bytes[k / 2] as int;
            assert(tag[i] == hex_text(bytes)[k]);
            assert(tag[i] == hex_digit(b / 16) || tag[i] == hex_digit(b % 16));
        }
    }
}

/// An upscaled URL is the URL cut at every `-large.` and joined again by `-t500x500.`: nothing
/// else of it changes.
pub proof fn law_upscale_changes_the_token_alone(url: Seq<char>)
    ensures
        upscaled(url) == joined(split_from(url, "-large."@, 0), "-t500x500."@),
{
    reveal_strlit("-large.");
    law_replace_joins_the_pieces(url, "-large."@, "-t500x500."@);
}

/// Behind `urlhex_` a cover tag has two characters for each byte of the URL, all of them digits
/// or letters from `a` to `f`.
pub proof fn law_cover_tag_is_lowercase_hex(url: Seq<char>)
    ensures
        cover_tag(url).len() == 7 + 2 * encode_utf8(url).len(),
        forall|i: int|
            7 <= i < cover_tag(url).len() ==> 48 <= #[trigger] cover_tag(url)[i] as int <= 57
                || 97 <= cover_tag(url)[i] as int <= 102,
{
    reveal_strlit("urlhex_");
    let tag = cover_tag(url);
    let bytes = encode_utf8(url);
    assert forall|i: int| 7 <= i < tag.len() implies 48 <= #[trigger] tag[i] as int <= 57 || 97
        <= tag[i] as int <= 102 by {
        let k = i - 7;
        let b = bytes[k / 2] as int;
        assert(tag[i] == hex_text(bytes)[k]);
        assert(tag[i] == hex_digit(b / 16) || tag[i] == hex_digit(b % 16));
    }
}

} // verus!
