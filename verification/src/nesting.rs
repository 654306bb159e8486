//! Bracket nesting: what makes a flat token sequence a token stream.

use vstd::prelude::*;
use crate::emit::{
    binding, byte_array, byte_elements, closing_tokens, constructor_call, declaration,
    length_and_block, path_sep, placement, pm_string,
};
use crate::grammar::ArgumentsView;
use crate::token::{Delimiter, SpannedView, TokenView};

verus! {

/// The open brackets after one more token: an opening bracket is added, a
/// closing one takes away the innermost if it matches it, and otherwise, or
/// after an earlier mismatch, there is no nesting any more.
pub open spec fn after_token(open: Option<Seq<Delimiter>>, t: TokenView) -> Option<
    Seq<Delimiter>,
> {
    match open {
        None => None,
        Some(stack) => match t {
            TokenView::Open(d) => Some(stack.push(d)),
            TokenView::Close(d) => if stack.len() > 0 && stack.last() == d {
                Some(stack.drop_last())
            } else {
                None
            },
            _ => Some(stack),
        },
    }
}

/// The open brackets after the tokens `ts`, innermost last, when `open` were
/// open before them.
pub open spec fn open_after(ts: Seq<SpannedView>, open: Option<Seq<Delimiter>>) -> Option<
    Seq<Delimiter>,
>
    decreases ts.len(),
{
    if ts.len() == 0 {
        open
    } else {
        after_token(open_after(ts.drop_last(), open), ts.last().token)
    }
}

/// Every bracket of `ts` is closed by its like, in order, and none is left
/// open.
pub open spec fn well_nested(ts: Seq<SpannedView>) -> bool {
    open_after(ts, Some(Seq::empty())) == Some(Seq::<Delimiter>::empty())
}

/// The brackets open after two runs of tokens are those open after the
/// second, starting from those open after the first.
pub proof fn open_after_both(a: Seq<SpannedView>, b: Seq<SpannedView>, open: Option<Seq<Delimiter>>)
    ensures
        open_after(a + b, open) == open_after(b, open_after(a, open)),
    decreases b.len(),
{
    if b.len() == 0 {
        assert(a + b =~= a);
    } else {
        open_after_both(a, b.drop_last(), open);
        assert((a + b).drop_last() =~= a + b.drop_last());
    }
}

/// The elements of a byte array hold no bracket.
proof fn elements_open_nothing(bytes: Seq<u8>, open: Option<Seq<Delimiter>>)
    ensures
        open_after(byte_elements(bytes), open) == open,
    decreases bytes.len(),
{
    if bytes.len() > 0 {
        let front = byte_elements(bytes.drop_last());
        let pair = byte_elements(bytes).subrange(front.len() as int, front.len() as int + 2);
        elements_open_nothing(bytes.drop_last(), open);
        assert(byte_elements(bytes) =~= front + pair);
        open_after_both(front, pair, open);
        reveal_with_fuel(open_after, 3);
    }
}

/// A byte array expression is well nested: it leaves open what was open.
pub proof fn byte_array_nests(bytes: Seq<u8>, stack: Seq<Delimiter>)
    ensures
        open_after(byte_array(bytes), Some(stack)) == Some(stack),
{
    let opened = seq![crate::emit::opening(Delimiter::Bracket)];
    let closed = seq![crate::emit::closing(Delimiter::Bracket)];
    reveal_with_fuel(open_after, 2);
    open_after_both(opened + byte_elements(bytes), closed, Some(stack));
    open_after_both(opened, byte_elements(bytes), Some(stack));
    elements_open_nothing(bytes, open_after(opened, Some(stack)));
    assert(open_after(byte_array(bytes), Some(stack))->0 =~= stack);
}

proof fn placement_nests()
    ensures
        open_after(placement(), Some(Seq::empty())) == Some(Seq::<Delimiter>::empty()),
{
    let none = Some(Seq::<Delimiter>::empty());
    let inside = Some(seq![Delimiter::Bracket, Delimiter::Parenthesis]);
    let opened = placement().subrange(0, 4);
    let settings = placement().subrange(4, 11);
    let closed = placement().subrange(11, 13);
    assert(placement() =~= opened + settings + closed);
    open_after_both(opened + settings, closed, none);
    open_after_both(opened, settings, none);
    assert(open_after(opened, none) == inside) by {
        reveal_with_fuel(open_after, 5);
        assert(open_after(opened, none)->0 =~= inside->0);
    }
    assert(open_after(settings, inside) == inside) by {
        reveal_with_fuel(open_after, 8);
    }
    assert(open_after(closed, inside) == none) by {
        reveal_with_fuel(open_after, 3);
        assert(open_after(closed, inside)->0 =~= none->0);
    }
}

proof fn binding_opens_nothing(args: ArgumentsView, open: Option<Seq<Delimiter>>)
    ensures
        open_after(binding(args), open) == open,
{
    reveal_with_fuel(open_after, 4);
}

proof fn pm_string_opens_nothing(open: Option<Seq<Delimiter>>)
    ensures
        open_after(pm_string(), open) == open,
{
    reveal_with_fuel(open_after, 8);
}

proof fn block_is_opened(args: ArgumentsView, len: nat)
    ensures
        open_after(length_and_block(args, len), Some(Seq::empty())) == Some(
            seq![Delimiter::Brace],
        ),
{
    reveal_with_fuel(open_after, 7);
    assert(open_after(length_and_block(args, len), Some(Seq::empty()))->0 =~= seq![
        Delimiter::Brace,
    ]);
}

proof fn call_is_opened()
    ensures
        open_after(constructor_call(), Some(seq![Delimiter::Brace])) == Some(
            seq![Delimiter::Brace, Delimiter::Parenthesis],
        ),
{
    let call = seq![
        crate::emit::word("from_array"@),
        crate::emit::opening(Delimiter::Parenthesis),
    ];
    let open = Some(seq![Delimiter::Brace]);
    open_after_both(pm_string() + path_sep(), call, open);
    open_after_both(pm_string(), path_sep(), open);
    pm_string_opens_nothing(open);
    reveal_with_fuel(open_after, 3);
    assert(open_after(call, open)->0 =~= seq![Delimiter::Brace, Delimiter::Parenthesis]);
}

proof fn call_and_block_are_closed(args: ArgumentsView)
    ensures
        open_after(closing_tokens(args), Some(seq![Delimiter::Brace, Delimiter::Parenthesis]))
            == Some(Seq::<Delimiter>::empty()),
{
    reveal_with_fuel(open_after, 4);
    assert(open_after(
        closing_tokens(args),
        Some(seq![Delimiter::Brace, Delimiter::Parenthesis]),
    )->0 =~= Seq::<Delimiter>::empty());
}

/// The item of a declaration is well nested, whatever it declares.
pub proof fn declaration_is_well_nested(args: ArgumentsView, bytes: Seq<u8>)
    ensures
        well_nested(declaration(args, bytes)),
{
    let none = Some(Seq::<Delimiter>::empty());
    let in_call = seq![Delimiter::Brace, Delimiter::Parenthesis];
    let attributed = placement();
    let bound = attributed + binding(args);
    let typed = bound + pm_string();
    let assigned = typed + length_and_block(args, bytes.len());
    let called = assigned + constructor_call();
    let filled = called + byte_array(bytes);

    placement_nests();
    open_after_both(attributed, binding(args), none);
    binding_opens_nothing(args, none);
    open_after_both(bound, pm_string(), none);
    pm_string_opens_nothing(none);
    open_after_both(typed, length_and_block(args, bytes.len()), none);
    block_is_opened(args, bytes.len());
    open_after_both(assigned, constructor_call(), none);
    call_is_opened();
    open_after_both(called, byte_array(bytes), none);
    byte_array_nests(bytes, in_call);
    open_after_both(filled, closing_tokens(args), none);
    call_and_block_are_closed(args);
}

} // verus!
