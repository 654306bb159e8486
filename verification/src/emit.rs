//! The emitter: the tokens of a byte array expression, and of the `static`
//! item that places a `PmString` holding such an array in program memory.

use vstd::prelude::*;
use vstd::string::*;
use crate::grammar::{Arguments, ArgumentsView};
use crate::nesting::{declaration_is_well_nested, well_nested};
use crate::literal::{print_u8_suffixed, print_usize_suffixed, u8_literal_text, usize_literal_text};
use crate::token::{fresh, reused, Delimiter, Span, Spanned, SpannedView, Token, TokenView};

verus! {

/// A word written by the expansion.
pub open spec fn word(text: Seq<char>) -> SpannedView {
    fresh(TokenView::Ident(text))
}

/// A punctuation character written by the expansion, standing alone.
pub open spec fn punct(c: char) -> SpannedView {
    fresh(TokenView::Punct(c, false))
}

/// A literal written by the expansion, by its source text.
pub open spec fn literal(repr: Seq<char>) -> SpannedView {
    fresh(TokenView::Literal(repr))
}

/// An opening bracket written by the expansion.
pub open spec fn opening(d: Delimiter) -> SpannedView {
    fresh(TokenView::Open(d))
}

/// A closing bracket written by the expansion.
pub open spec fn closing(d: Delimiter) -> SpannedView {
    fresh(TokenView::Close(d))
}

/// The path separator `::`.
pub open spec fn path_sep() -> Seq<SpannedView> {
    seq![fresh(TokenView::Punct(':', true)), punct(':')]
}

/// The elements of a byte array: each byte as a `u8` literal followed by a
/// comma, in order.
pub open spec fn byte_elements(bytes: Seq<u8>) -> Seq<SpannedView>
    decreases bytes.len(),
{
    if bytes.len() == 0 {
        Seq::empty()
    } else {
        byte_elements(bytes.drop_last()) + seq![
            literal(u8_literal_text(bytes.last())),
            punct(','),
        ]
    }
}

/// The array expression `[ b0u8 , b1u8 , ... ]`.
pub open spec fn byte_array(bytes: Seq<u8>) -> Seq<SpannedView> {
    seq![opening(Delimiter::Bracket)] + byte_elements(bytes) + seq![
        closing(Delimiter::Bracket),
    ]
}

/// The attribute `#[cfg_attr(target_arch = "avr", link_section = ".progmem.data")]`.
pub open spec fn placement() -> Seq<SpannedView> {
    seq![
        punct('#'),
        opening(Delimiter::Bracket),
        word("cfg_attr"@),
        opening(Delimiter::Parenthesis),
        word("target_arch"@),
        punct('='),
        literal("\"avr\""@),
        punct(','),
        word("link_section"@),
        punct('='),
        literal("\".progmem.data\""@),
        closing(Delimiter::Parenthesis),
        closing(Delimiter::Bracket),
    ]
}

/// The path `avr_progmem::string::PmString`.
pub open spec fn pm_string() -> Seq<SpannedView> {
    seq![word("avr_progmem"@)] + path_sep() + seq![word("string"@)] + path_sep() + seq![
        word("PmString"@),
    ]
}

/// `static NAME :`, the first two tokens at the places of the input's own.
pub open spec fn binding(args: ArgumentsView) -> Seq<SpannedView> {
    seq![
        reused(TokenView::Ident("static"@), args.static_at),
        reused(TokenView::Ident(args.varname), args.varname_at),
        punct(':'),
    ]
}

/// `< LEN > = unsafe {`, the equals sign at the place of the input's own.
pub open spec fn length_and_block(args: ArgumentsView, len: nat) -> Seq<SpannedView> {
    seq![
        punct('<'),
        literal(usize_literal_text(len)),
        punct('>'),
        reused(TokenView::Punct('=', false), args.eq_at),
        word("unsafe"@),
        opening(Delimiter::Brace),
    ]
}

/// `avr_progmem::string::PmString::from_array (`.
pub open spec fn constructor_call() -> Seq<SpannedView> {
    pm_string() + path_sep() + seq![word("from_array"@), opening(Delimiter::Parenthesis)]
}

/// `) } ;`, the semicolon at the place of the input's own.
pub open spec fn closing_tokens(args: ArgumentsView) -> Seq<SpannedView> {
    seq![
        closing(Delimiter::Parenthesis),
        closing(Delimiter::Brace),
        reused(TokenView::Punct(';', false), args.semicolon_at),
    ]
}

/// The item that a declaration with payload `bytes` expands to:
///
/// `#[cfg_attr(target_arch = "avr", link_section = ".progmem.data")]
/// static NAME : avr_progmem::string::PmString<LEN> = unsafe {
/// avr_progmem::string::PmString::from_array([ b0u8 , b1u8 , ... ]) } ;`
///
/// where `LEN` is the number of bytes.
pub open spec fn declaration(args: ArgumentsView, bytes: Seq<u8>) -> Seq<SpannedView> {
    placement() + binding(args) + pm_string() + length_and_block(args, bytes.len())
        + constructor_call() + byte_array(bytes) + closing_tokens(args)
}

fn put(out: &mut Vec<Spanned>, token: Token, span: Span)
    ensures
        final(out).deep_view() == old(out).deep_view().push(
            SpannedView { token: token@, span },
        ),
{
    out.push(Spanned { token, span });
    assert(out.deep_view() =~= old(out).deep_view().push(SpannedView { token: token@, span }));
}

fn put_word(out: &mut Vec<Spanned>, text: &str)
    ensures
        final(out).deep_view() == old(out).deep_view().push(word(text@)),
{
    put(out, Token::Ident(String::from_str(text)), Span::CallSite);
}

fn put_punct(out: &mut Vec<Spanned>, c: char)
    ensures
        final(out).deep_view() == old(out).deep_view().push(punct(c)),
{
    put(out, Token::Punct(c, false), Span::CallSite);
}

fn put_literal(out: &mut Vec<Spanned>, repr: String)
    ensures
        final(out).deep_view() == old(out).deep_view().push(literal(repr@)),
{
    put(out, Token::Literal(repr), Span::CallSite);
}

fn put_open(out: &mut Vec<Spanned>, d: Delimiter)
    ensures
        final(out).deep_view() == old(out).deep_view().push(opening(d)),
{
    put(out, Token::Open(d), Span::CallSite);
}

fn put_close(out: &mut Vec<Spanned>, d: Delimiter)
    ensures
        final(out).deep_view() == old(out).deep_view().push(closing(d)),
{
    put(out, Token::Close(d), Span::CallSite);
}

fn put_path_sep(out: &mut Vec<Spanned>)
    ensures
        final(out).deep_view() == old(out).deep_view() + path_sep(),
{
    put(out, Token::Punct(':', true), Span::CallSite);
    put_punct(out, ':');
    assert(out.deep_view() =~= old(out).deep_view() + path_sep());
}

fn put_pm_string(out: &mut Vec<Spanned>)
    ensures
        final(out).deep_view() == old(out).deep_view() + pm_string(),
{
    put_word(out, "avr_progmem");
    put_path_sep(out);
    put_word(out, "string");
    put_path_sep(out);
    put_word(out, "PmString");
    assert(out.deep_view() =~= old(out).deep_view() + pm_string());
}

fn put_placement(out: &mut Vec<Spanned>)
    ensures
        final(out).deep_view() == old(out).deep_view() + placement(),
{
    put_punct(out, '#');
    put_open(out, Delimiter::Bracket);
    put_word(out, "cfg_attr");
    put_open(out, Delimiter::Parenthesis);
    put_word(out, "target_arch");
    put_punct(out, '=');
    put_literal(out, String::from_str("\"avr\""));
    put_punct(out, ',');
    put_word(out, "link_section");
    put_punct(out, '=');
    put_literal(out, String::from_str("\".progmem.data\""));
    put_close(out, Delimiter::Parenthesis);
    put_close(out, Delimiter::Bracket);
    assert(out.deep_view() =~= old(out).deep_view() + placement());
}

/// Appends the array expression that holds `bytes`.
pub fn put_byte_array(out: &mut Vec<Spanned>, bytes: &Vec<u8>)
    ensures
        final(out).deep_view() == old(out).deep_view() + byte_array(bytes@),
{
    put_open(out, Delimiter::Bracket);
    let ghost start = out.deep_view();
    let mut i: usize = 0;
    while i < bytes.len()
        invariant
            i <= bytes.len(),
            out.deep_view() == start + byte_elements(bytes@.take(i as int)),
        decreases bytes.len() - i,
    {
        put_literal(out, print_u8_suffixed(bytes[i]));
        put_punct(out, ',');
        proof {
            let before = bytes@.take(i as int);
            let now = bytes@.take(i + 1);
            assert(now.drop_last() =~= before);
            assert(now.last() == bytes@[i as int]);
            assert(out.deep_view() =~= start + byte_elements(now));
        }
        i += 1;
    }
    assert(bytes@.take(i as int) =~= bytes@);
    put_close(out, Delimiter::Bracket);
    assert(out.deep_view() =~= old(out).deep_view() + byte_array(bytes@));
}

/// The tokens of the item that declares `args.varname` as a `PmString` of
/// `bytes`, placed in program memory on AVR.
pub fn declare(args: &Arguments, bytes: &Vec<u8>) -> (out: Vec<Spanned>)
    ensures
        out.deep_view() == declaration(args@, bytes@),
        well_nested(out.deep_view()),
{
    proof {
        declaration_is_well_nested(args@, bytes@);
    }
    let mut out: Vec<Spanned> = Vec::new();
    assert(out.deep_view() =~= Seq::empty());
    put_placement(&mut out);
    let ghost s1 = out.deep_view();
    assert(s1 =~= placement());

    put(&mut out, Token::Ident(String::from_str("static")), Span::Input(args.static_at));
    put(&mut out, Token::Ident(args.varname.clone()), Span::Input(args.varname_at));
    put_punct(&mut out, ':');
    let ghost s2 = out.deep_view();
    assert(s2 =~= s1 + binding(args@));

    put_pm_string(&mut out);
    let ghost s3 = out.deep_view();

    put_punct(&mut out, '<');
    put_literal(&mut out, print_usize_suffixed(bytes.len()));
    put_punct(&mut out, '>');
    put(&mut out, Token::Punct('=', false), Span::Input(args.eq_at));
    put_word(&mut out, "unsafe");
    put_open(&mut out, Delimiter::Brace);
    let ghost s4 = out.deep_view();
    assert(s4 =~= s3 + length_and_block(args@, bytes@.len()));

    put_pm_string(&mut out);
    put_path_sep(&mut out);
    put_word(&mut out, "from_array");
    put_open(&mut out, Delimiter::Parenthesis);
    let ghost s5 = out.deep_view();
    assert(s5 =~= s4 + constructor_call());

    put_byte_array(&mut out, bytes);
    let ghost s6 = out.deep_view();

    put_close(&mut out, Delimiter::Parenthesis);
    put_close(&mut out, Delimiter::Brace);
    put(&mut out, Token::Punct(';', false), Span::Input(args.semicolon_at));
    assert(out.deep_view() =~= s6 + closing_tokens(args@));
    out
}

} // verus!
