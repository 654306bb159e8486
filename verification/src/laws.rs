//! What holds of the expansions, proved from the definitions: how an emitted
//! item reads back, and what the grammar accepts and rejects.

use vstd::prelude::*;
use vstd::utf8::{decode_utf8, encode_utf8, encode_utf8_decode_utf8};
use crate::emit::{
    binding, byte_array, byte_elements, closing_tokens, constructor_call, declaration,
    length_and_block, literal, placement, pm_string, punct,
};
use crate::grammar::{
    declared, divergence, divergence_is_unique, expected_len, fits_up_to, grammar_error,
    is_inline, recognized, rejected_at, rejected_is_not_well_formed, slot_ok, text_of,
    well_formed, ArgumentsView, ParseError, SourceView,
};
use crate::lexeme::{lexemes_of, LexemeView};
use crate::literal::{decimal, digit, u8_literal_text, usize_literal_text};
use crate::source::{contents_view, payload_of, unreadable};
use crate::token::{Spanned, SpannedView, Token, TokenView};
use crate::{bytes_expansion, declaration_expansion, expansion_view};

verus! {

/// The number that a decimal numeral denotes.
pub open spec fn numeral_value(digits: Seq<char>) -> nat
    decreases digits.len(),
{
    if digits.len() == 0 {
        0
    } else {
        (numeral_value(digits.drop_last()) * 10 + (digits.last() as u32 - 48)) as nat
    }
}

/// The number that an integer literal with a suffix of `suffix_len`
/// characters denotes; 0 for a token that is no literal.
pub open spec fn literal_number(t: SpannedView, suffix_len: int) -> nat {
    match t.token {
        TokenView::Literal(repr) => numeral_value(repr.take(repr.len() - suffix_len)),
        _ => 0,
    }
}

/// The bytes that an array expression `[ b0u8 , b1u8 , ... ]` holds.
pub open spec fn array_bytes(array: Seq<SpannedView>) -> Seq<u8> {
    Seq::new(
        ((array.len() - 2) / 2) as nat,
        |k: int| literal_number(array[1 + 2 * k], 2) as u8,
    )
}

/// The array expression inside the item of a declaration: what stands
/// between `from_array (`, the last of the 40 tokens before it, and the three
/// tokens `) } ;`.
pub open spec fn wrapped_array(item: Seq<SpannedView>) -> Seq<SpannedView> {
    item.subrange(40, item.len() - 3)
}

/// The bytes that the item of a declaration wraps.
pub open spec fn wrapped_bytes(item: Seq<SpannedView>) -> Seq<u8> {
    array_bytes(wrapped_array(item))
}

/// The length that the item of a declaration gives its `PmString`: the
/// literal between `<` and `>`, which is the token with index 24.
pub open spec fn wrapped_len(item: Seq<SpannedView>) -> nat {
    literal_number(item[24], 5)
}

/// A numeral denotes the number it was written for.
pub proof fn decimal_reads_back(n: nat)
    ensures
        numeral_value(decimal(n)) == n,
    decreases n,
{
    if n < 10 {
        assert(decimal(n).drop_last() =~= Seq::<char>::empty());
        assert(numeral_value(Seq::<char>::empty()) == 0);
        assert(digit(n) as u32 == 48 + n);
    } else {
        decimal_reads_back(n / 10);
        assert(decimal(n).drop_last() =~= decimal(n / 10));
        assert(digit(n % 10) as u32 == 48 + n % 10);
    }
}

/// The elements of an array are two tokens for each byte: its literal, then
/// a comma.
pub proof fn byte_elements_are_in_order(bytes: Seq<u8>)
    ensures
        byte_elements(bytes).len() == 2 * bytes.len(),
        forall|k: int|
            0 <= k < bytes.len() ==> #[trigger] byte_elements(bytes)[2 * k] == literal(
                u8_literal_text(bytes[k]),
            ) && byte_elements(bytes)[2 * k + 1] == punct(','),
    decreases bytes.len(),
{
    if bytes.len() > 0 {
        byte_elements_are_in_order(bytes.drop_last());
        let front = byte_elements(bytes.drop_last());
        assert forall|k: int| 0 <= k < bytes.len() implies #[trigger] byte_elements(bytes)[2 * k]
            == literal(u8_literal_text(bytes[k])) && byte_elements(bytes)[2 * k + 1] == punct(
            ',',
        ) by {
            if k < bytes.len() - 1 {
                assert(front[2 * k] == literal(u8_literal_text(bytes.drop_last()[k])));
            }
        }
    }
}

/// An array expression reads back as the bytes it was written for: the same
/// number of them, in the same order.
pub proof fn array_reads_back(bytes: Seq<u8>)
    ensures
        byte_array(bytes).len() == 2 * bytes.len() + 2,
        array_bytes(byte_array(bytes)) == bytes,
{
    byte_elements_are_in_order(bytes);
    let array = byte_array(bytes);
    assert forall|k: int| 0 <= k < bytes.len() implies literal_number(array[1 + 2 * k], 2)
        == bytes[k] by {
        assert(array[1 + 2 * k] == byte_elements(bytes)[2 * k]);
        let repr = u8_literal_text(bytes[k]);
        assert(repr.take(repr.len() - 2) =~= decimal(bytes[k] as nat));
        decimal_reads_back(bytes[k] as nat);
    }
    assert(array_bytes(array) =~= bytes);
}

/// The item of a declaration reads back as the payload it was written for:
/// the length in its type is the number of bytes, and the array it wraps
/// holds the bytes in order.
pub proof fn declaration_reads_back(args: ArgumentsView, bytes: Seq<u8>)
    ensures
        wrapped_array(declaration(args, bytes)) == byte_array(bytes),
        wrapped_bytes(declaration(args, bytes)) == bytes,
        wrapped_len(declaration(args, bytes)) == bytes.len(),
{
    array_reads_back(bytes);
    let item = declaration(args, bytes);
    let head = placement() + binding(args) + pm_string() + length_and_block(args, bytes.len())
        + constructor_call();
    assert(pm_string().len() == 7);
    assert(constructor_call().len() == 11);
    assert(head.len() == 40);
    assert(item =~= head + byte_array(bytes) + closing_tokens(args));
    assert(wrapped_array(item) =~= byte_array(bytes));
    assert(item[24] == length_and_block(args, bytes.len())[1]);
    let repr = usize_literal_text(bytes.len());
    assert(repr.take(repr.len() - 5) =~= decimal(bytes.len()));
    decimal_reads_back(bytes.len());
}

/// A string literal expands to the array of the bytes of its text in UTF-8,
/// byte for byte: the array holds as many bytes as the encoding has, in the
/// same order.
pub proof fn literal_expands_to_its_encoding(text: Seq<char>)
    ensures
        bytes_expansion(seq![LexemeView::Text(text)]) == Ok::<Seq<SpannedView>, ParseError>(
            byte_array(encode_utf8(text)),
        ),
        byte_array(encode_utf8(text)).len() == 2 * encode_utf8(text).len() + 2,
        array_bytes(byte_array(encode_utf8(text))) == encode_utf8(text),
{
    array_reads_back(encode_utf8(text));
}

/// A declaration whose source is a string literal expands to an item that
/// wraps the UTF-8 encoding of the literal's text, with the length of the
/// encoding in its type, whatever was or was not read of any file.
pub proof fn literal_source_is_wrapped_encoded(ls: Seq<LexemeView>, contents: Option<Seq<u8>>)
    requires
        well_formed(ls),
        is_inline(ls),
    ensures
        declaration_expansion(ls, contents) matches Ok(item) && {
            let bytes = encode_utf8(text_of(ls[5])->0);
            &&& item == declaration(declared(ls), bytes)
            &&& wrapped_bytes(item) == bytes
            &&& wrapped_len(item) == bytes.len()
        },
{
    declaration_reads_back(declared(ls), encode_utf8(text_of(ls[5])->0));
}

/// A declaration whose source is an inclusion expands to an item that wraps
/// the contents of the file exactly as they were read; where nothing could
/// be read it is rejected at the literal that names the file, and no item is
/// written.
pub proof fn included_file_is_wrapped_as_read(ls: Seq<LexemeView>, contents: Option<Seq<u8>>)
    requires
        well_formed(ls),
        !is_inline(ls),
    ensures
        match contents {
            Some(bytes) => declaration_expansion(ls, contents) matches Ok(item) && {
                &&& item == declaration(declared(ls), bytes)
                &&& wrapped_bytes(item) == bytes
                &&& wrapped_len(item) == bytes.len()
            },
            None => {
                &&& declaration_expansion(ls, contents) == Err::<Seq<SpannedView>, ParseError>(
                    unreadable(8),
                )
                &&& declared(ls).source == SourceView::File(text_of(ls[8])->0, 8)
                &&& text_of(ls[8]) is Some
            },
        },
{
    assert(slot_ok(ls, 8));
    match contents {
        Some(bytes) => {
            declaration_reads_back(declared(ls), bytes);
        },
        None => {},
    }
}

/// Every token sequence is a declaration or diverges from the grammar at
/// some index, never both.
pub proof fn accepted_or_rejected(ls: Seq<LexemeView>)
    ensures
        well_formed(ls) != rejected_at(ls, divergence(ls)),
        forall|at: int| rejected_at(ls, at) ==> at == divergence(ls),
{
    assert forall|at: int| rejected_at(ls, at) implies at == divergence(ls) by {
        divergence_is_unique(ls, at, divergence(ls));
    }
    if well_formed(ls) {
        if rejected_at(ls, divergence(ls)) {
            rejected_is_not_well_formed(ls, divergence(ls));
        }
    } else {
        let at = first_unfilled(ls, 0);
        first_unfilled_is_first(ls, 0);
        if at < expected_len(ls) {
            assert(rejected_at(ls, at));
        } else {
            assert(rejected_at(ls, expected_len(ls)));
        }
    }
}

/// The first slot from `from` on that is not filled, or the number of slots
/// if all are.
pub open spec fn first_unfilled(ls: Seq<LexemeView>, from: int) -> int
    decreases expected_len(ls) - from,
{
    if from >= expected_len(ls) || !slot_ok(ls, from) {
        from
    } else {
        first_unfilled(ls, from + 1)
    }
}

proof fn first_unfilled_is_first(ls: Seq<LexemeView>, from: int)
    requires
        0 <= from <= expected_len(ls),
        fits_up_to(ls, from),
    ensures
        from <= first_unfilled(ls, from) <= expected_len(ls),
        fits_up_to(ls, first_unfilled(ls, from)),
        first_unfilled(ls, from) < expected_len(ls) ==> !slot_ok(ls, first_unfilled(ls, from)),
        first_unfilled(ls, from) <= ls.len(),
    decreases expected_len(ls) - from,
{
    if from >= expected_len(ls) || !slot_ok(ls, from) {
        if from > 0 {
            assert(slot_ok(ls, from - 1));
        }
    } else {
        first_unfilled_is_first(ls, from + 1);
    }
}

/// Tokens whose slots before `at` are filled and whose slot `at` is not are
/// rejected at `at`, with the error of that slot: a missing or wrong token is
/// reported where it stands, and what follows it is not looked at.
pub proof fn rejected_at_first_unfilled_slot(ls: Seq<LexemeView>, at: int)
    requires
        0 <= at <= ls.len(),
        at < expected_len(ls),
        fits_up_to(ls, at),
        !slot_ok(ls, at),
    ensures
        recognized(ls) == Err::<ArgumentsView, ParseError>(grammar_error(ls, at)),
{
    assert(rejected_at(ls, at));
    rejected_is_not_well_formed(ls, at);
    divergence_is_unique(ls, at, divergence(ls));
}

/// Tokens that fill every slot and go on are rejected at the first token
/// after the declaration.
pub proof fn rejected_at_surplus_token(ls: Seq<LexemeView>)
    requires
        fits_up_to(ls, expected_len(ls)),
        ls.len() > expected_len(ls),
    ensures
        recognized(ls) == Err::<ArgumentsView, ParseError>(grammar_error(ls, expected_len(ls))),
{
    assert(rejected_at(ls, expected_len(ls)));
    rejected_is_not_well_formed(ls, expected_len(ls));
    divergence_is_unique(ls, expected_len(ls), divergence(ls));
}

/// No proper prefix of a declaration is a declaration.
pub proof fn prefix_is_rejected(ls: Seq<LexemeView>, n: int)
    requires
        well_formed(ls),
        0 <= n < ls.len(),
    ensures
        !well_formed(ls.take(n)),
{
    if n > 5 {
        assert(ls.take(n)[5] == ls[5]);
    }
}

/// Expanding a declaration again gives the same: of two outcomes that
/// [`avr_progmem_str`](crate::avr_progmem_str) may have on the same tokens
/// and the same contents, each token of one is the token of the other, and
/// an error of one is the error of the other.
pub proof fn declaration_expansion_is_repeatable(
    tokens: Vec<Token>,
    contents: Option<Vec<u8>>,
    first: Result<Vec<Spanned>, ParseError>,
    again_tokens: Vec<Token>,
    again_contents: Option<Vec<u8>>,
    second: Result<Vec<Spanned>, ParseError>,
)
    requires
        tokens.deep_view() == again_tokens.deep_view(),
        contents_view(contents) == contents_view(again_contents),
        expansion_view(first) == declaration_expansion(
            lexemes_of(tokens.deep_view()),
            contents_view(contents),
        ),
        expansion_view(second) == declaration_expansion(
            lexemes_of(again_tokens.deep_view()),
            contents_view(again_contents),
        ),
    ensures
        expansion_view(first) == expansion_view(second),
{
}

/// Expanding a string literal again gives the same: of two outcomes that
/// [`string_as_bytes`](crate::string_as_bytes) may have on the same tokens,
/// each token of one is the token of the other.
pub proof fn bytes_expansion_is_repeatable(
    tokens: Vec<Token>,
    first: Result<Vec<Spanned>, ParseError>,
    again_tokens: Vec<Token>,
    second: Result<Vec<Spanned>, ParseError>,
)
    requires
        tokens.deep_view() == again_tokens.deep_view(),
        expansion_view(first) == bytes_expansion(lexemes_of(tokens.deep_view())),
        expansion_view(second) == bytes_expansion(lexemes_of(again_tokens.deep_view())),
    ensures
        expansion_view(first) == expansion_view(second),
{
}

/// Decoding what an expansion wrote gives back the text of the literal: the
/// bytes in the array of a string literal, and the bytes that the item of a
/// declaration with a literal source wraps, decode to that text.
pub proof fn literal_text_round_trips(text: Seq<char>, args: ArgumentsView)
    ensures
        decode_utf8(array_bytes(byte_array(encode_utf8(text)))) == text,
        decode_utf8(wrapped_bytes(declaration(args, encode_utf8(text)))) == text,
{
    array_reads_back(encode_utf8(text));
    declaration_reads_back(args, encode_utf8(text));
    encode_utf8_decode_utf8(text);
}

/// An empty payload is no error: an empty text and an empty file resolve to
/// no bytes, and the item then has length `0usize` and wraps the array `[ ]`.
pub proof fn empty_payload_is_accepted(args: ArgumentsView, name: Seq<char>, at: usize)
    ensures
        payload_of(SourceView::Text(Seq::empty()), None) == Ok::<Seq<u8>, ParseError>(
            Seq::empty(),
        ),
        payload_of(SourceView::File(name, at), Some(Seq::empty())) == Ok::<Seq<u8>, ParseError>(
            Seq::empty(),
        ),
        declaration(args, Seq::empty())[24] == literal(seq!['0', 'u', 's', 'i', 'z', 'e']),
        wrapped_len(declaration(args, Seq::empty())) == 0,
        wrapped_array(declaration(args, Seq::empty())) == byte_array(Seq::empty()),
        byte_array(Seq::empty()).len() == 2,
        wrapped_bytes(declaration(args, Seq::empty())) == Seq::<u8>::empty(),
{
    let none = Seq::<u8>::empty();
    assert(encode_utf8(Seq::<char>::empty()) =~= none);
    declaration_reads_back(args, none);
    let item = declaration(args, none);
    assert(item[24] == length_and_block(args, 0)[1]);
    assert(usize_literal_text(0) =~= seq!['0', 'u', 's', 'i', 'z', 'e']);
}

} // verus!
