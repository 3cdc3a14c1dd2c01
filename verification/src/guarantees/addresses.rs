//! Where a request came from, and how a file is offered to a browser.

use vstd::prelude::*;

use crate::fields::{field_text, is_field_value, lower, Fields};
use crate::text::{
    all_are, law_trimmed, law_trims, split, trim_back, trim_front, trimmed, white_space,
};
use crate::utils::headers::{client_address, disposition_value, forwarded_address};

verus! {

broadcast use vstd::string::group_string_axioms;

/// Without a proxy, the address is that of the other end of the connection, whatever fields tell.
/// Behind a proxy, it is what the `Forwarded` field tells, or else what the `X-Forwarded-For` field
/// tells first, and never that of the other end.
pub proof fn law_client_addresses(fields: Fields, peer: Option<Seq<char>>)
    ensures
        client_address(fields, peer, false) == peer,
        client_address(fields, peer, true) == ({
            let forwarded = match field_text(fields, "Forwarded"@) {
                Some(text) => forwarded_address(split(text, ';')),
                None => None,
            };
            let first = match field_text(fields, "X-Forwarded-For"@) {
                Some(text) => trimmed(split(text, ',')[0]),
                None => seq![],
            };
            if forwarded is Some {
                forwarded
            } else if first.len() > 0 {
                Some(first)
            } else {
                None
            }
        }),
{
}

/// The first address that elements of a `Forwarded` field tell is that of the elements at the front,
/// or else that of those behind them.
pub proof fn law_forwarded_in_two(a: Seq<Seq<char>>, b: Seq<Seq<char>>)
    ensures
        forwarded_address(a + b) == if forwarded_address(a) is Some {
            forwarded_address(a)
        } else {
            forwarded_address(b)
        },
    decreases a.len(),
{
    if a.len() == 0 {
        assert(a + b =~= b);
    } else {
        assert((a + b).drop_first() =~= a.drop_first() + b);
        law_forwarded_in_two(a.drop_first(), b);
    }
}

/// An element `for=` tells the address behind it without quotes around it and without brackets at
/// its front, whatever white space is around the element. An element that begins otherwise, or that
/// has nothing left, tells none.
pub proof fn law_forwarded_element(
    a: Seq<char>,
    quotes: Seq<char>,
    brackets: Seq<char>,
    address: Seq<char>,
    more_quotes: Seq<char>,
    b: Seq<char>,
    other: Seq<char>,
)
    requires
        all_are(a, |c: char| white_space(c)),
        all_are(b, |c: char| white_space(c)),
        all_are(quotes, |c: char| c == '"'),
        all_are(more_quotes, |c: char| c == '"'),
        all_are(brackets, |c: char| c == '['),
        address.len() > 0,
        address[0] != '[',
        brackets.len() == 0 ==> address[0] != '"',
        address.last() != '"',
        !white_space(address.last()),
        !"for="@.is_prefix_of(trimmed(other)),
    ensures
        forwarded_address(
            seq![a + ("for="@ + (quotes + (brackets + address) + more_quotes)) + b],
        ) == Some(address),
        forwarded_address(seq![a + ("for="@ + quotes) + b]) is None,
        forwarded_address(seq![other]) is None,
{
    reveal_strlit("for=");
    reveal_with_fuel(forwarded_address, 2);
    let quote = |c: char| c == '"';
    let bracket = |c: char| c == '[';
    let inner = brackets + address;
    let rest = quotes + inner + more_quotes;
    let part = "for="@ + rest;
    let n = "for="@.len() as int;
    assert(part[0] == 'f');
    if brackets.len() > 0 {
        assert(bracket(brackets[0]));
        assert(inner[0] == brackets[0]);
    } else {
        assert(inner =~= address);
    }
    assert(inner.last() == address.last());
    if more_quotes.len() > 0 {
        assert(quote(more_quotes[more_quotes.len() - 1]));
        assert(part.last() == more_quotes.last());
    } else {
        assert(part.last() == address.last());
    }
    law_trimmed(a, part, b);
    assert("for="@ =~= part.take(n));
    assert(part.skip(n) =~= rest);
    law_trims(quotes, inner, more_quotes, quote);
    lemma_brackets(brackets, address);
    let bare = "for="@ + quotes;
    if quotes.len() > 0 {
        assert(quote(quotes[quotes.len() - 1]));
        assert(bare.last() == quotes.last());
    } else {
        assert(bare.last() == '=');
    }
    assert(bare[0] == 'f');
    law_trimmed(a, bare, b);
    assert("for="@ =~= bare.take(n));
    assert(bare.skip(n) =~= quotes);
    let none = Seq::<char>::empty();
    law_trims(quotes, none, none, quote);
    assert(quotes + none =~= quotes);
    assert(trim_front(quotes, quote) == none);
    assert(trim_back(none, quote) =~= none);
    assert(trim_front(none, bracket) =~= none);
}

/// Brackets at the front of an address are left out.
proof fn lemma_brackets(brackets: Seq<char>, address: Seq<char>)
    requires
        all_are(brackets, |c: char| c == '['),
        address.len() > 0,
        address[0] != '[',
    ensures
        trim_front(brackets + address, |c: char| c == '[') == address,
    decreases brackets.len(),
{
    let bracket = |c: char| c == '[';
    if brackets.len() == 0 {
        assert(brackets + address =~= address);
    } else {
        assert(bracket(brackets[0]));
        let less = brackets.drop_first();
        assert forall|i: int| 0 <= i < less.len() implies bracket(#[trigger] less[i]) by {
            assert(bracket(brackets[i + 1]));
        }
        assert((brackets + address).drop_first() =~= less + address);
        lemma_brackets(less, address);
    }
}

/// A file is shown by a browser if and only if it is an image, a text, a sound or a film, or a
/// script, data or a program for pages. It keeps its name, where a field can hold it.
pub proof fn law_dispositions(kind: Seq<char>, subtype: Seq<char>, filename: Seq<char>)
    ensures
        ({
            let shown = kind == "image"@ || kind == "text"@ || kind == "audio"@ || kind == "video"@ || (
            kind == "application"@ && (subtype == "javascript"@ || subtype == "json"@ || (
            subtype.len() == "wasm"@.len() && forall|i: int|
                0 <= i < subtype.len() ==> lower(#[trigger] subtype[i]) == "wasm"@[i])));
            let value = disposition_value((kind, subtype), filename);
            let named = (if shown {
                "inline"@
            } else {
                "attachment"@
            }) + "; filename=\""@ + filename + "\""@;
            value == if is_field_value(named) {
                named
            } else {
                "attachment"@
            }
        }),
{
    reveal_strlit("wasm");
    let a = subtype.map_values(|c: char| lower(c));
    let b = "wasm"@.map_values(|c: char| lower(c));
    if subtype.len() == "wasm"@.len() && forall|i: int|
        0 <= i < subtype.len() ==> lower(#[trigger] subtype[i]) == "wasm"@[i] {
        assert forall|i: int| 0 <= i < a.len() implies a[i] == b[i] by {
            assert(lower(subtype[i]) == "wasm"@[i]);
        }
        assert(a =~= b);
    }
    if a == b {
        assert(a.len() == b.len());
        assert forall|i: int| 0 <= i < subtype.len() implies lower(#[trigger] subtype[i])
            == "wasm"@[i] by {
            assert(a[i] == b[i]);
        }
    }
}

} // verus!
