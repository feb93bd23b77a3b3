//! Annotation engine: renders reading-annotated (ruby) markup over a text
//! from the token stream of a morphological analyzer. Tokens carry byte
//! ranges over the original UTF-8 text; all slicing is re-clamped and kept
//! on codepoint boundaries, gaps between tokens are preserved, and both
//! surface text and readings are HTML-escaped.

use vstd::prelude::*;

verus! {

use crate::text::escape_chars;
use crate::text::escape_html;
use crate::text::is_blank;
use crate::text::kata_to_hira_chars;
use crate::text::katakana_to_hiragana;
use crate::text::str_is_blank;
use crate::text::trim_spec;
use crate::text::trim_str;
use vstd::string::StrSliceExecFns;
use vstd::string::StringExecFns;
use vstd::string::StringSliceAdditionalSpecFns;
use vstd::utf8::decode_utf8;
use vstd::utf8::encode_utf8;
use vstd::utf8::is_char_boundary;
use vstd::utf8::valid_utf8;

/// The analyzer detail column that carries a token's phonetic reading.
pub const READING_DETAIL_INDEX: usize = 7;

/// One analyzer token: a byte range over the original text and the raw
/// reading detail, when the analyzer supplied one.
pub struct TokenInfo {
    pub byte_start: usize,
    pub byte_end: usize,
    pub detail: Option<String>,
}

/// The mathematical content of a token.
pub struct TokenModel {
    pub byte_start: int,
    pub byte_end: int,
    pub detail: Option<Seq<char>>,
}

impl TokenInfo {
    /// The token's byte range and detail as mathematical values.
    pub open spec fn model(&self) -> TokenModel {
        TokenModel {
            byte_start: self.byte_start as int,
            byte_end: self.byte_end as int,
            detail: self.detail.deep_view(),
        }
    }
}

/// The models of a token list, in order.
pub open spec fn token_models(tokens: Seq<TokenInfo>) -> Seq<TokenModel> {
    tokens.map_values(|t: TokenInfo| t.model())
}

/// `x` clamped from above to `n`.
pub open spec fn clamp_to(x: int, n: int) -> int {
    if x > n {
        n
    } else {
        x
    }
}

/// Declares `lindera::segmenter::Segmenter`, the morphological analyzer, so
/// the annotation entry point can borrow one; its values are opaque here.
#[verifier::external_type_specification]
#[verifier::external_body]
pub struct ExSegmenter(lindera::segmenter::Segmenter);

/// Relies on `lindera::segmenter::Segmenter::segment`: tokenizes the text
/// with the analyzer's dictionary. Each token is handed back as its byte
/// range and the detail at `detail_index`; nothing further is assumed of
/// what the analyzer returns. On error, the error's display text is
/// returned.
#[verifier::external_body]
fn segment_text(
    segmenter: &lindera::segmenter::Segmenter,
    text: &str,
    detail_index: usize,
) -> Result<Vec<TokenInfo>, String> {
    match segmenter.segment(std::borrow::Cow::Borrowed(text)) {
        Ok(mut tokens) => Ok(
            tokens
                .iter_mut()
                .map(|t| TokenInfo {
                    byte_start: t.byte_start,
                    byte_end: t.byte_end,
                    detail: t.get_detail(detail_index).map(|d| d.to_string()),
                })
                .collect(),
        ),
        Err(err) => Err(err.to_string()),
    }
}

/// The reading to gloss a token with: the trimmed detail, converted to
/// hiragana — or nothing when the detail is absent, blank, or the `*`
/// placeholder the analyzer uses for unknown readings.
pub open spec fn reading_spec(detail: Option<Seq<char>>) -> Option<Seq<char>> {
    match detail {
        Option::None => Option::None,
        Option::Some(d) => {
            let t = trim_spec(d);
            if t.len() == 0 || t == "*"@ {
                Option::None
            } else {
                Option::Some(kata_to_hira_chars(t))
            }
        },
    }
}

/// Extracts the reading to display for a token detail, if any.
pub fn token_reading(detail: &Option<String>) -> (r: Option<String>)
    ensures
        r.deep_view() == reading_spec(detail.deep_view()),
{
    match detail {
        Option::None => Option::None,
        Option::Some(d) => {
            let trimmed = trim_str(d.as_str());
            let placeholder: String = "*".to_owned();
            if trimmed.as_str().is_empty() || trimmed == placeholder {
                Option::None
            } else {
                Option::Some(katakana_to_hiragana(trimmed.as_str()))
            }
        },
    }
}

/// The decoded characters of the byte range `[a, b)` of `bytes`.
pub open spec fn slice_chars(bytes: Seq<u8>, a: int, b: int) -> Seq<char> {
    decode_utf8(bytes.subrange(a, b))
}

/// The markup emitted for one token whose clamped byte range is `[s, e)`:
/// the escaped surface alone when there is no reading to show or the
/// reading equals the surface, and a ruby group otherwise.
pub open spec fn rendered_token(bytes: Seq<u8>, s: int, e: int, detail: Option<Seq<char>>) -> Seq<
    char,
> {
    let surface = slice_chars(bytes, s, e);
    match reading_spec(detail) {
        Option::None => escape_chars(surface),
        Option::Some(reading) => {
            if reading == surface {
                escape_chars(surface)
            } else {
                "<ruby>"@ + escape_chars(surface) + "<rt>"@ + escape_chars(reading)
                    + "</rt></ruby>"@
            }
        },
    }
}

/// The gap emitted before a token: the escaped substring between the cursor
/// and the token's start, which captures whitespace and analyzer-skipped
/// text; empty when the token starts at or before the cursor, or claims to
/// start beyond the text.
pub open spec fn gap_chars(bytes: Seq<u8>, cursor: int, start: int) -> Seq<char> {
    if start > cursor && start <= bytes.len() {
        escape_chars(slice_chars(bytes, cursor, start))
    } else {
        seq![]
    }
}

/// The markup for the tokens from index `i` on, with the emit cursor at byte
/// `cursor`, followed by the escaped trailing text after the last token.
pub open spec fn annotate_from(bytes: Seq<u8>, toks: Seq<TokenModel>, i: int, cursor: int) -> Seq<
    char,
>
    decreases toks.len() - i,
{
    if i < 0 || i >= toks.len() {
        escape_chars(slice_chars(bytes, cursor, bytes.len() as int))
    } else {
        let t = toks[i];
        let s = clamp_to(t.byte_start, bytes.len() as int);
        let e = clamp_to(t.byte_end, bytes.len() as int);
        gap_chars(bytes, cursor, t.byte_start) + rendered_token(bytes, s, e, t.detail)
            + annotate_from(bytes, toks, i + 1, e)
    }
}

/// The complete annotated markup for a text and its token stream.
pub open spec fn annotate_spec(bytes: Seq<u8>, toks: Seq<TokenModel>) -> Seq<char> {
    annotate_from(bytes, toks, 0, 0)
}

/// A token can be sliced defensively: its clamped byte range is ordered and
/// both clamped offsets sit on codepoint boundaries of the text.
pub open spec fn sliceable_token(bytes: Seq<u8>, t: TokenModel) -> bool {
    let n = bytes.len() as int;
    let s = clamp_to(t.byte_start, n);
    let e = clamp_to(t.byte_end, n);
    s <= e && is_char_boundary(bytes, s) && is_char_boundary(bytes, e)
}

/// Every token of the stream can be sliced defensively.
pub open spec fn tokens_sliceable(bytes: Seq<u8>, toks: Seq<TokenModel>) -> bool {
    forall|i: int| 0 <= i < toks.len() ==> sliceable_token(bytes, #[trigger] toks[i])
}

/// A boundary of the whole text is a boundary of its suffix from `a` on.
proof fn lemma_boundary_in_suffix(bytes: Seq<u8>, a: int, b: int)
    requires
        valid_utf8(bytes),
        0 <= a <= b <= bytes.len(),
        is_char_boundary(bytes, a),
        is_char_boundary(bytes, b),
    ensures
        is_char_boundary(bytes.subrange(a, bytes.len() as int), b - a),
{
    let tail = bytes.subrange(a, bytes.len() as int);
    vstd::utf8::valid_utf8_split(bytes, a);
    if b == a {
    } else if b == bytes.len() {
        vstd::utf8::is_char_boundary_start_end_of_seq(tail);
    } else {
        vstd::utf8::is_char_boundary_iff_not_is_continuation_byte(bytes, b);
        assert(tail[b - a] == bytes[b]);
        vstd::utf8::is_char_boundary_iff_not_is_continuation_byte(tail, b - a);
    }
}

/// Decoding a suffix of the text splits at any inner boundary.
proof fn lemma_decode_split_mid(bytes: Seq<u8>, a: int, b: int)
    requires
        valid_utf8(bytes),
        0 <= a <= b <= bytes.len(),
        is_char_boundary(bytes, a),
        is_char_boundary(bytes, b),
    ensures
        decode_utf8(bytes.subrange(a, bytes.len() as int)) == decode_utf8(bytes.subrange(a, b))
            + decode_utf8(bytes.subrange(b, bytes.len() as int)),
{
    let tail = bytes.subrange(a, bytes.len() as int);
    vstd::utf8::valid_utf8_split(bytes, a);
    lemma_boundary_in_suffix(bytes, a, b);
    vstd::utf8::decode_utf8_split(tail, b - a);
    assert(tail.subrange(0, b - a) =~= bytes.subrange(a, b));
    assert(tail.subrange(b - a, tail.len() as int) =~= bytes.subrange(b, bytes.len() as int));
}

/// The substring of `s` over the byte range `[a, b)`, which must lie on
/// codepoint boundaries; its characters are the decoding of exactly those
/// bytes, so no multi-byte codepoint is ever split.
pub fn substring_bytes<'a>(s: &'a str, a: usize, b: usize) -> (r: &'a str)
    requires
        a <= b <= s.spec_bytes().len(),
        is_char_boundary(s.spec_bytes(), a as int),
        is_char_boundary(s.spec_bytes(), b as int),
    ensures
        r.spec_bytes() == s.spec_bytes().subrange(a as int, b as int),
        r@ == slice_chars(s.spec_bytes(), a as int, b as int),
{
    proof {
        vstd::utf8::encode_utf8_valid_utf8(s@);
    }
    let (_, tail) = s.split_at(a);
    proof {
        lemma_boundary_in_suffix(s.spec_bytes(), a as int, b as int);
        assert(tail.spec_bytes() == s.spec_bytes().subrange(
            a as int,
            s.spec_bytes().len() as int,
        ));
    }
    let (mid, _) = tail.split_at(b - a);
    proof {
        assert(tail.spec_bytes().subrange(0, (b - a) as int) =~= s.spec_bytes().subrange(
            a as int,
            b as int,
        ));
        vstd::utf8::encode_utf8_decode_utf8(mid@);
    }
    mid
}

/// Whether every token of the stream passes the defensive slicing checks
/// against this text.
pub fn tokens_are_sliceable(text: &str, tokens: &Vec<TokenInfo>) -> (r: bool)
    ensures
        r == tokens_sliceable(text.spec_bytes(), token_models(tokens@)),
{
    let n = text.as_bytes().len();
    let m = tokens.len();
    let mut i: usize = 0;
    while i < m
        invariant
            m == tokens@.len(),
            n == text.spec_bytes().len(),
            i <= m,
            forall|j: int|
                0 <= j < i ==> sliceable_token(
                    text.spec_bytes(),
                    #[trigger] token_models(tokens@)[j],
                ),
        decreases m - i,
    {
        let tok = &tokens[i];
        let s = if tok.byte_start < n {
            tok.byte_start
        } else {
            n
        };
        let e = if tok.byte_end < n {
            tok.byte_end
        } else {
            n
        };
        if s > e || !text.is_char_boundary(s) || !text.is_char_boundary(e) {
            proof {
                assert(!sliceable_token(text.spec_bytes(), token_models(tokens@)[i as int]));
            }
            return false;
        }
        i += 1;
    }
    true
}

/// Renders the annotated markup for `text` from a checked token stream.
/// Tokens are taken in order: the gap before each token and its surface are
/// emitted escaped, a token whose reading is absent, blank, a placeholder,
/// or equal to its surface gets no gloss, and any trailing text after the
/// last token is preserved.
#[verifier::rlimit(60)]
pub fn annotate_tokens(text: &str, tokens: &Vec<TokenInfo>) -> (r: String)
    requires
        tokens_sliceable(text.spec_bytes(), token_models(tokens@)),
    ensures
        r@ == annotate_spec(text.spec_bytes(), token_models(tokens@)),
{
    let ghost bytes = text.spec_bytes();
    let ghost toks = token_models(tokens@);
    let n = text.as_bytes().len();
    let m = tokens.len();
    let mut out = String::new();
    let mut cursor: usize = 0;
    let mut i: usize = 0;
    proof {
        vstd::utf8::encode_utf8_valid_utf8(text@);
    }
    while i < m
        invariant
            m == tokens@.len(),
            n == bytes.len(),
            bytes == text.spec_bytes(),
            toks == token_models(tokens@),
            tokens_sliceable(bytes, toks),
            valid_utf8(bytes),
            i <= m,
            cursor <= n,
            is_char_boundary(bytes, cursor as int),
            out@ + annotate_from(bytes, toks, i as int, cursor as int) == annotate_spec(
                bytes,
                toks,
            ),
        decreases m - i,
    {
        let ghost out_at_entry = out@;
        let ghost cursor_at_entry = cursor as int;
        let tok = &tokens[i];
        proof {
            assert(toks[i as int] == tok.model());
            assert(sliceable_token(bytes, toks[i as int]));
        }
        if tok.byte_start > cursor && tok.byte_start <= n {
            let piece = substring_bytes(text, cursor, tok.byte_start);
            let esc = escape_html(piece);
            out.append(esc.as_str());
        }
        proof {
            assert(out@ =~= out_at_entry + gap_chars(
                bytes,
                cursor_at_entry,
                tok.byte_start as int,
            ));
        }
        let ghost out_after_gap = out@;
        let s = if tok.byte_start < n {
            tok.byte_start
        } else {
            n
        };
        let e = if tok.byte_end < n {
            tok.byte_end
        } else {
            n
        };
        proof {
            assert(s as int == clamp_to(toks[i as int].byte_start, n as int));
            assert(e as int == clamp_to(toks[i as int].byte_end, n as int));
        }
        let surface = substring_bytes(text, s, e);
        match token_reading(&tok.detail) {
            Option::Some(reading) => {
                let surface_owned = surface.to_owned();
                if reading == surface_owned {
                    let esc = escape_html(surface);
                    out.append(esc.as_str());
                } else {
                    out.append("<ruby>");
                    let esc_surface = escape_html(surface);
                    out.append(esc_surface.as_str());
                    out.append("<rt>");
                    let esc_reading = escape_html(reading.as_str());
                    out.append(esc_reading.as_str());
                    out.append("</rt></ruby>");
                }
            },
            Option::None => {
                let esc = escape_html(surface);
                out.append(esc.as_str());
            },
        }
        proof {
            assert(out@ =~= out_after_gap + rendered_token(
                bytes,
                s as int,
                e as int,
                toks[i as int].detail,
            ));
            assert(annotate_from(bytes, toks, i as int, cursor_at_entry) == gap_chars(
                bytes,
                cursor_at_entry,
                toks[i as int].byte_start,
            ) + rendered_token(bytes, s as int, e as int, toks[i as int].detail) + annotate_from(
                bytes,
                toks,
                i as int + 1,
                e as int,
            ));
            assert(out@ + annotate_from(bytes, toks, i as int + 1, e as int) =~= annotate_spec(
                bytes,
                toks,
            ));
        }
        cursor = e;
        i += 1;
    }
    if cursor < n {
        proof {
            vstd::utf8::is_char_boundary_start_end_of_seq(bytes);
        }
        let piece = substring_bytes(text, cursor, n);
        let esc = escape_html(piece);
        out.append(esc.as_str());
        proof {
            assert(out@ =~= annotate_spec(bytes, toks));
        }
    } else {
        proof {
            assert(bytes.subrange(cursor as int, n as int) =~= Seq::<u8>::empty());
            assert(slice_chars(bytes, cursor as int, n as int) =~= Seq::<char>::empty());
            assert(escape_chars(Seq::<char>::empty()) =~= Seq::<char>::empty());
            assert(out@ =~= annotate_spec(bytes, toks));
        }
    }
    out
}

/// Annotates `text` with phonetic readings using the analyzer. Blank input
/// yields the empty string at once. Otherwise the text is tokenized and the
/// markup rendered by `annotate_tokens`; whatever token stream the analyzer
/// produced, a returned `Ok` is exactly the rendering of some token stream
/// that passed the defensive slicing checks. Tokenization failure, or a
/// token stream that fails those checks, is an error.
pub fn annotate_with_furigana(segmenter: &lindera::segmenter::Segmenter, text: &str) -> (r: Result<
    String,
    String,
>)
    ensures
        is_blank(text@) ==> (r matches Ok(s) && s@ == Seq::<char>::empty()),
        !is_blank(text@) && r is Ok ==> exists|toks: Seq<TokenModel>|
            tokens_sliceable(text.spec_bytes(), toks) && (r matches Ok(s) && s@ == annotate_spec(
                text.spec_bytes(),
                toks,
            )),
{
    if str_is_blank(text) {
        return Ok(String::new());
    }
    let tokens = match segment_text(segmenter, text, READING_DETAIL_INDEX) {
        Ok(tokens) => tokens,
        Err(err) => {
            let mut msg: String = "tokenization failed: ".to_owned();
            msg.append(err.as_str());
            return Err(msg);
        },
    };
    if !tokens_are_sliceable(text, &tokens) {
        return Err("tokenization produced offsets off codepoint boundaries".to_owned());
    }
    let rendered = annotate_tokens(text, &tokens);
    proof {
        let witness = token_models(tokens@);
        assert(tokens_sliceable(text.spec_bytes(), witness) && rendered@ == annotate_spec(
            text.spec_bytes(),
            witness,
        ));
    }
    Ok(rendered)
}

/// The unescaped text fragments the renderer emits, concatenated in order:
/// the gap before each token, the token's surface, and the trailing text
/// after the last token. This mirrors `annotate_from` with the markup and
/// escaping left out.
pub open spec fn surface_concat_from(
    bytes: Seq<u8>,
    toks: Seq<TokenModel>,
    i: int,
    cursor: int,
) -> Seq<char>
    decreases toks.len() - i,
{
    if i < 0 || i >= toks.len() {
        slice_chars(bytes, cursor, bytes.len() as int)
    } else {
        let t = toks[i];
        let s = clamp_to(t.byte_start, bytes.len() as int);
        let e = clamp_to(t.byte_end, bytes.len() as int);
        let gap = if t.byte_start > cursor && t.byte_start <= bytes.len() {
            slice_chars(bytes, cursor, t.byte_start)
        } else {
            seq![]
        };
        gap + slice_chars(bytes, s, e) + surface_concat_from(bytes, toks, i + 1, e)
    }
}

/// Tokens are in order and within the text: each byte range is ordered and
/// ends within the text, and each token starts at or after the previous
/// token's end — what the analyzer guarantees of its token stream.
pub open spec fn tokens_monotone(bytes: Seq<u8>, toks: Seq<TokenModel>) -> bool {
    &&& forall|i: int|
        #![trigger toks[i]]
        0 <= i < toks.len() ==> 0 <= toks[i].byte_start <= toks[i].byte_end <= bytes.len()
    &&& forall|i: int|
        #![trigger toks[i]]
        0 < i < toks.len() ==> toks[i - 1].byte_end <= toks[i].byte_start
}

proof fn lemma_surface_concat_from(bytes: Seq<u8>, toks: Seq<TokenModel>, i: int, cursor: int)
    requires
        valid_utf8(bytes),
        tokens_sliceable(bytes, toks),
        tokens_monotone(bytes, toks),
        0 <= i <= toks.len(),
        0 <= cursor <= bytes.len(),
        is_char_boundary(bytes, cursor),
        i < toks.len() ==> cursor <= toks[i].byte_start,
    ensures
        surface_concat_from(bytes, toks, i, cursor) == decode_utf8(
            bytes.subrange(cursor, bytes.len() as int),
        ),
    decreases toks.len() - i,
{
    if i < toks.len() {
        let t = toks[i];
        let start = t.byte_start;
        let e = t.byte_end;
        assert(sliceable_token(bytes, toks[i]));
        assert(clamp_to(start, bytes.len() as int) == start);
        assert(clamp_to(e, bytes.len() as int) == e);
        assert(is_char_boundary(bytes, start));
        assert(is_char_boundary(bytes, e));
        if i + 1 < toks.len() {
            assert(toks[i + 1 - 1].byte_end <= toks[i + 1].byte_start);
        }
        lemma_surface_concat_from(bytes, toks, i + 1, e);
        lemma_decode_split_mid(bytes, cursor, start);
        lemma_decode_split_mid(bytes, start, e);
        if start > cursor {
            assert(surface_concat_from(bytes, toks, i, cursor) =~= decode_utf8(
                bytes.subrange(cursor, bytes.len() as int),
            ));
        } else {
            assert(start == cursor);
            assert(bytes.subrange(cursor, start) =~= Seq::<u8>::empty());
            assert(surface_concat_from(bytes, toks, i, cursor) =~= decode_utf8(
                bytes.subrange(cursor, bytes.len() as int),
            ));
        }
    }
}

/// Round trip of the annotation: over a token stream that is in order and
/// within the text — the analyzer's guarantee — the concatenation of every
/// unescaped fragment the renderer emits (gaps, surfaces and trailing text)
/// reconstructs the original input exactly. Each fragment is decoded from a
/// byte range lying on codepoint boundaries, so no fragment splits a
/// multi-byte codepoint.
pub proof fn lemma_surfaces_reconstruct_text(text: Seq<char>, toks: Seq<TokenModel>)
    requires
        tokens_sliceable(encode_utf8(text), toks),
        tokens_monotone(encode_utf8(text), toks),
    ensures
        surface_concat_from(encode_utf8(text), toks, 0, 0) == text,
{
    let bytes = encode_utf8(text);
    vstd::utf8::encode_utf8_valid_utf8(text);
    vstd::utf8::encode_utf8_decode_utf8(text);
    vstd::utf8::is_char_boundary_start_end_of_seq(bytes);
    lemma_surface_concat_from(bytes, toks, 0, 0);
    assert(bytes.subrange(0, bytes.len() as int) =~= bytes);
}

} // verus!
