//! What the service attribute decides before it writes any code: the token
//! trees of a method's return type tell a unary method from a server-streaming
//! one and give the streamed item type, method IDs are hashed and checked for
//! collisions, and the generated items are named.

use heck::{ToShoutySnakeCase, ToSnakeCase};
use vstd::prelude::*;

use crate::crate_name::{Error, FoundCrate};
use crate::protocol::{compute_method_id, method_id_of};
use crate::text::{decimal_text, push_decimal};
use vstd::utf8::encode_utf8;

verus! {

/// The delimiter of a token group.
#[derive(Clone, Copy, Debug, PartialEq, Eq, Structural)]
pub enum Delimiter {
    /// `( ... )`
    Parenthesis,
    /// `{ ... }`
    Brace,
    /// `[ ... ]`
    Bracket,
    /// A group with no visible delimiter.
    Invisible,
}

/// A token tree, as a procedural macro receives it. A lifetime `'a` comes as
/// the punctuation `'` followed by the identifier `a`.
#[derive(Debug)]
pub enum TokenTree {
    /// Tokens between a pair of delimiters.
    Group(Delimiter, Vec<TokenTree>),
    /// An identifier or keyword.
    Ident(String),
    /// A single punctuation character.
    Punct(char),
    /// A literal, as written in the source.
    Literal(String),
}

/// A token tree as a mathematical value.
pub enum TokenView {
    /// A group's delimiter and the values of its tokens.
    Group(Delimiter, Seq<TokenView>),
    /// An identifier's text.
    Ident(Seq<char>),
    /// A punctuation character.
    Punct(char),
    /// A literal's text.
    Literal(Seq<char>),
}

/// The value of a token tree.
pub open spec fn token_view(t: TokenTree) -> TokenView
    decreases t,
{
    match t {
        TokenTree::Group(d, inner) => TokenView::Group(d, tokens_view(inner@)),
        TokenTree::Ident(s) => TokenView::Ident(s@),
        TokenTree::Punct(c) => TokenView::Punct(c),
        TokenTree::Literal(s) => TokenView::Literal(s@),
    }
}

/// The values of a sequence of token trees, in order.
pub open spec fn tokens_view(s: Seq<TokenTree>) -> Seq<TokenView>
    decreases s,
{
    if s.len() == 0 {
        Seq::empty()
    } else {
        tokens_view(s.drop_last()).push(token_view(s.last()))
    }
}

impl View for TokenTree {
    type V = TokenView;

    open spec fn view(&self) -> TokenView {
        token_view(*self)
    }
}

/// `tokens_view` maps each token to its value.
pub proof fn lemma_tokens_view(s: Seq<TokenTree>)
    ensures
        tokens_view(s).len() == s.len(),
        forall|i: int| 0 <= i < s.len() ==> #[trigger] tokens_view(s)[i] == token_view(s[i]),
    decreases s.len(),
{
    if s.len() > 0 {
        lemma_tokens_view(s.drop_last());
    }
}

/// The values after a push: the value of the pushed token comes last.
pub proof fn lemma_tokens_view_push(s: Seq<TokenTree>, t: TokenTree)
    ensures
        tokens_view(s.push(t)) == tokens_view(s).push(token_view(t)),
{
    assert(s.push(t).drop_last() =~= s);
}

/// A copy of a token tree.
pub fn copy_token(t: &TokenTree) -> (r: TokenTree)
    ensures
        r@ == t@,
    decreases t,
{
    match t {
        TokenTree::Group(d, inner) => {
            let mut out: Vec<TokenTree> = Vec::new();
            let mut i: usize = 0;
            while i < inner.len()
                invariant
                    *t == TokenTree::Group(*d, *inner),
                    i <= inner.len(),
                    tokens_view(out@) == tokens_view(inner@.take(i as int)),
                decreases inner.len() - i,
            {
                assert(decreases_to!(*t => (*t)->1));
                assert(decreases_to!(*inner => inner[i as int]));
                let c = copy_token(&inner[i]);
                proof {
                    let old_out = out@;
                    assert(old_out.push(c).drop_last() =~= old_out);
                    assert(inner@.take(i + 1).drop_last() =~= inner@.take(i as int));
                }
                out.push(c);
                i = i + 1;
            }
            assert(inner@.take(inner.len() as int) =~= inner@);
            TokenTree::Group(*d, out)
        },
        TokenTree::Ident(s) => TokenTree::Ident(s.clone()),
        TokenTree::Punct(c) => TokenTree::Punct(*c),
        TokenTree::Literal(s) => TokenTree::Literal(s.clone()),
    }
}

/// A lifetime starts at `i`: the punctuation `'` followed by an identifier or
/// by `_`.
pub open spec fn lifetime_at(s: Seq<TokenView>, i: int) -> bool {
    &&& s[i] == TokenView::Punct('\'')
    &&& i + 1 < s.len()
    &&& (s[i + 1] is Ident || s[i + 1] == TokenView::Punct('_'))
}

/// A lifetime occurs in the tokens, at their top level or inside a group.
pub open spec fn has_lifetime(s: Seq<TokenView>) -> bool
    decreases s,
{
    exists|i: int|
        0 <= i < s.len() && (lifetime_at(s, i) || (#[trigger] s[i] matches TokenView::Group(
            _,
            inner,
        ) && has_lifetime(inner)))
}

/// Whether a type contains a lifetime (`'a`, `'_`, `'static`, ...), looking
/// inside parentheses, brackets and braces too. A character literal such as
/// `'c'` is no lifetime.
pub fn type_has_lifetime(ty: &Vec<TokenTree>) -> (r: bool)
    ensures
        r == has_lifetime(tokens_view(ty@)),
    decreases ty,
{
    let ghost v = tokens_view(ty@);
    proof {
        lemma_tokens_view(ty@);
    }
    let n = ty.len();
    let mut i: usize = 0;
    while i < n
        invariant
            n == ty.len(),
            i <= n,
            v == tokens_view(ty@),
            v.len() == n,
            forall|k: int| 0 <= k < n ==> #[trigger] v[k] == token_view(ty@[k]),
            forall|k: int|
                0 <= k < i ==> !(lifetime_at(v, k) || (#[trigger] v[k] matches TokenView::Group(
                    _,
                    inner,
                ) && has_lifetime(inner))),
        decreases n - i,
    {
        match &ty[i] {
            TokenTree::Punct(c) => {
                if *c == '\'' && i + 1 < n {
                    let is_start = match &ty[i + 1] {
                        TokenTree::Ident(_) => true,
                        TokenTree::Punct(c2) => *c2 == '_',
                        _ => false,
                    };
                    if is_start {
                        assert(lifetime_at(v, i as int));
                        return true;
                    }
                }
                assert(!lifetime_at(v, i as int));
            },
            TokenTree::Group(_, inner) => {
                assert(decreases_to!(*ty => ty[i as int]));
                assert(decreases_to!(ty[i as int] => ty[i as int]->1));
                if type_has_lifetime(inner) {
                    return true;
                }
            },
            _ => {},
        }
        i = i + 1;
    }
    false
}

/// The depth of `<` brackets after the tokens, counting top-level tokens only;
/// a `>` at depth zero leaves it at zero.
pub open spec fn angle_depth(s: Seq<TokenView>) -> nat
    decreases s.len(),
{
    if s.len() == 0 {
        0
    } else {
        let d = angle_depth(s.drop_last());
        if s.last() == TokenView::Punct('<') {
            d + 1
        } else if s.last() == TokenView::Punct('>') {
            if d == 0 {
                0
            } else {
                (d - 1) as nat
            }
        } else {
            d
        }
    }
}

/// The token at `k` splits the tokens: it is the delimiter, outside any `<>`.
/// (`<` and `>` themselves only open and close brackets.)
pub open spec fn splits_at(s: Seq<TokenView>, k: int, delimiter: char) -> bool {
    &&& s[k] == TokenView::Punct(delimiter)
    &&& delimiter != '<'
    &&& delimiter != '>'
    &&& angle_depth(s.take(k)) == 0
}

/// The pieces of the tokens between the splitting delimiters, in order; there
/// is one piece more than there are splitting delimiters.
pub open spec fn split_parts(s: Seq<TokenView>, delimiter: char) -> Seq<Seq<TokenView>>
    decreases s.len(),
{
    if s.len() == 0 {
        seq![Seq::empty()]
    } else {
        let prev = split_parts(s.drop_last(), delimiter);
        if splits_at(s, s.len() - 1, delimiter) {
            prev.push(Seq::empty())
        } else {
            prev.update(prev.len() - 1, prev.last().push(s.last()))
        }
    }
}

/// The parts joined again, with the delimiter between each two.
pub open spec fn joined(parts: Seq<Seq<TokenView>>, delimiter: char) -> Seq<TokenView>
    decreases parts.len(),
{
    if parts.len() == 0 {
        Seq::empty()
    } else if parts.len() == 1 {
        parts[0]
    } else {
        joined(parts.drop_last(), delimiter) + seq![TokenView::Punct(delimiter)] + parts.last()
    }
}

/// Splitting loses no token: there is at least one part, and joining the
/// parts with the delimiter gives the tokens back.
pub proof fn lemma_split_join(s: Seq<TokenView>, delimiter: char)
    ensures
        split_parts(s, delimiter).len() >= 1,
        joined(split_parts(s, delimiter), delimiter) == s,
    decreases s.len(),
{
    if s.len() == 0 {
        assert(joined(seq![Seq::<TokenView>::empty()], delimiter) == Seq::<TokenView>::empty());
    } else {
        let prev = split_parts(s.drop_last(), delimiter);
        lemma_split_join(s.drop_last(), delimiter);
        let parts = split_parts(s, delimiter);
        if splits_at(s, s.len() - 1, delimiter) {
            assert(parts == prev.push(Seq::<TokenView>::empty()));
            assert(parts.drop_last() =~= prev);
            assert(joined(parts, delimiter) =~= s);
        } else {
            let n = prev.len();
            assert(parts == prev.update(n - 1, prev.last().push(s.last())));
            assert(s.drop_last().push(s.last()) =~= s);
            if n == 1 {
                assert(joined(prev, delimiter) == prev[0]);
                assert(parts[0] == prev[0].push(s.last()));
            } else {
                let front = joined(prev.drop_last(), delimiter) + seq![TokenView::Punct(delimiter)];
                assert(parts.drop_last() =~= prev.drop_last());
                assert(parts.last() == prev.last().push(s.last()));
                assert(joined(prev, delimiter) == front + prev.last());
                assert(joined(parts, delimiter) == front + prev.last().push(s.last()));
                assert(front + prev.last().push(s.last()) =~= (front + prev.last()).push(s.last()));
            }
        }
    }
}

/// The values of the parts.
pub open spec fn parts_view(parts: Seq<Vec<TokenTree>>) -> Seq<Seq<TokenView>> {
    parts.map_values(|p: Vec<TokenTree>| tokens_view(p@))
}

/// Splits tokens at each top-level `delimiter` that is not inside `<>`.
pub fn split_top_level(tokens: Vec<TokenTree>, delimiter: char) -> (r: Vec<Vec<TokenTree>>)
    ensures
        parts_view(r@) == split_parts(tokens_view(tokens@), delimiter),
{
    let ghost v = tokens_view(tokens@);
    proof {
        lemma_tokens_view(tokens@);
    }
    let n = tokens.len();
    let mut parts: Vec<Vec<TokenTree>> = Vec::new();
    let mut current: Vec<TokenTree> = Vec::new();
    let mut angle: usize = 0;
    let mut i: usize = 0;
    while i < n
        invariant
            n == tokens.len(),
            i <= n,
            v == tokens_view(tokens@),
            v.len() == n,
            forall|k: int| 0 <= k < n ==> #[trigger] v[k] == token_view(tokens@[k]),
            angle == angle_depth(v.take(i as int)),
            angle <= i,
            split_parts(v.take(i as int), delimiter) == parts_view(parts@).push(
                tokens_view(current@),
            ),
        decreases n - i,
    {
        let ghost pre = v.take(i as int);
        let ghost next = v.take(i + 1);
        assert(next.drop_last() =~= pre);
        assert(next.last() == v[i as int]);
        let t = copy_token(&tokens[i]);
        let (is_open, is_close, is_delim) = match &t {
            TokenTree::Punct(c) => (*c == '<', *c == '>', *c == delimiter),
            _ => (false, false, false),
        };
        if is_open {
            angle = angle + 1;
            let ghost cur = current@;
            current.push(t);
            proof {
                assert(cur.push(t).drop_last() =~= cur);
                assert(parts_view(parts@).push(tokens_view(current@)) =~= parts_view(
                    parts@,
                ).push(tokens_view(cur)).update(
                    parts@.len() as int,
                    tokens_view(cur).push(v[i as int]),
                ));
            }
        } else if is_close {
            if angle > 0 {
                angle = angle - 1;
            }
            let ghost cur = current@;
            current.push(t);
            proof {
                assert(cur.push(t).drop_last() =~= cur);
                assert(parts_view(parts@).push(tokens_view(current@)) =~= parts_view(
                    parts@,
                ).push(tokens_view(cur)).update(
                    parts@.len() as int,
                    tokens_view(cur).push(v[i as int]),
                ));
            }
        } else if is_delim && angle == 0 {
            assert(splits_at(next, i as int, delimiter));
            let ghost old_parts = parts@;
            let done = current;
            current = Vec::new();
            parts.push(done);
            proof {
                assert(parts_view(parts@) =~= parts_view(old_parts).push(tokens_view(done@)));
                assert(tokens_view(current@) =~= Seq::<TokenView>::empty());
            }
        } else {
            let ghost cur = current@;
            current.push(t);
            proof {
                assert(cur.push(t).drop_last() =~= cur);
                assert(parts_view(parts@).push(tokens_view(current@)) =~= parts_view(
                    parts@,
                ).push(tokens_view(cur)).update(
                    parts@.len() as int,
                    tokens_view(cur).push(v[i as int]),
                ));
            }
        }
        i = i + 1;
    }
    assert(v.take(n as int) =~= v);
    let ghost old_parts = parts@;
    parts.push(current);
    assert(parts_view(parts@) =~= parts_view(old_parts).push(tokens_view(current@)));
    parts
}

/// The first character of the tokens' text: a group shows its opening
/// delimiter, and a group without delimiters shows its contents.
pub open spec fn leading_char(s: Seq<TokenView>) -> Option<char>
    decreases s,
{
    if s.len() == 0 {
        None
    } else {
        match s[0] {
            TokenView::Punct(c) => Some(c),
            TokenView::Ident(t) => if t.len() > 0 {
                Some(t[0])
            } else {
                leading_char(s.drop_first())
            },
            TokenView::Literal(t) => if t.len() > 0 {
                Some(t[0])
            } else {
                leading_char(s.drop_first())
            },
            TokenView::Group(d, inner) => match d {
                Delimiter::Parenthesis => Some('('),
                Delimiter::Brace => Some('{'),
                Delimiter::Bracket => Some('['),
                Delimiter::Invisible => match leading_char(inner) {
                    Some(c) => Some(c),
                    None => leading_char(s.drop_first()),
                },
            },
        }
    }
}

/// The first character of the tokens' text, if they have any.
pub fn first_char(tokens: &Vec<TokenTree>) -> (r: Option<char>)
    ensures
        r == leading_char(tokens_view(tokens@)),
    decreases tokens,
{
    let ghost v = tokens_view(tokens@);
    proof {
        lemma_tokens_view(tokens@);
    }
    let n = tokens.len();
    let mut i: usize = 0;
    assert(v.skip(0) =~= v);
    while i < n
        invariant
            n == tokens.len(),
            i <= n,
            v == tokens_view(tokens@),
            v.len() == n,
            forall|k: int| 0 <= k < n ==> #[trigger] v[k] == token_view(tokens@[k]),
            leading_char(v) == leading_char(v.skip(i as int)),
        decreases n - i,
    {
        let ghost rest = v.skip(i as int);
        assert(rest[0] == v[i as int]);
        assert(rest.drop_first() =~= v.skip(i + 1));
        match &tokens[i] {
            TokenTree::Punct(c) => {
                return Some(*c);
            },
            TokenTree::Ident(t) => {
                if t.as_str().unicode_len() > 0 {
                    return Some(t.as_str().get_char(0));
                }
            },
            TokenTree::Literal(t) => {
                if t.as_str().unicode_len() > 0 {
                    return Some(t.as_str().get_char(0));
                }
            },
            TokenTree::Group(d, inner) => {
                match d {
                    Delimiter::Parenthesis => {
                        return Some('(');
                    },
                    Delimiter::Brace => {
                        return Some('{');
                    },
                    Delimiter::Bracket => {
                        return Some('[');
                    },
                    Delimiter::Invisible => {
                        assert(decreases_to!(*tokens => tokens[i as int]));
                        assert(decreases_to!(tokens[i as int] => tokens[i as int]->1));
                        let inner_first = first_char(inner);
                        if inner_first.is_some() {
                            return inner_first;
                        }
                    },
                }
            },
        }
        i = i + 1;
    }
    assert(v.skip(n as int) =~= Seq::<TokenView>::empty());
    None
}

/// The type streamed by `Streaming<...>`: the last of the generic arguments
/// that has text and is no lifetime (text starting with `'`).
pub open spec fn stream_item(args: Seq<Seq<TokenView>>) -> Option<Seq<TokenView>>
    decreases args.len(),
{
    if args.len() == 0 {
        None
    } else {
        match leading_char(args.last()) {
            None => stream_item(args.drop_last()),
            Some(c) => if c == '\'' {
                stream_item(args.drop_last())
            } else {
                Some(args.last())
            },
        }
    }
}

/// Picks the item type out of the generic arguments of `Streaming<...>`.
pub fn select_stream_item_type(inner: Vec<TokenTree>) -> (r: Option<Vec<TokenTree>>)
    ensures
        match stream_item(split_parts(tokens_view(inner@), ',')) {
            Some(item) => r matches Some(seg) && tokens_view(seg@) == item,
            None => r is None,
        },
{
    let mut segments = split_top_level(inner, ',');
    let ghost all = parts_view(segments@);
    while segments.len() > 0
        invariant
            all == split_parts(tokens_view(inner@), ','),
            stream_item(all) == stream_item(parts_view(segments@)),
        decreases segments.len(),
    {
        let ghost before = segments@;
        let segment = segments.pop().unwrap();
        proof {
            assert(parts_view(before).drop_last() =~= parts_view(segments@));
            assert(parts_view(before).len() == before.len());
            assert(parts_view(before).last() == tokens_view(segment@));
        }
        let c = first_char(&segment);
        match c {
            None => {},
            Some(ch) => {
                if ch != '\'' {
                    return Some(segment);
                }
            },
        }
    }
    None
}

/// `t` in front of the tokens, if there are any.
pub open spec fn prepend(t: TokenView, o: Option<Seq<TokenView>>) -> Option<Seq<TokenView>> {
    match o {
        Some(r) => Some(seq![t] + r),
        None => None,
    }
}

/// `acc` in front of the tokens, if there are any.
pub open spec fn prepend_all(acc: Seq<TokenView>, o: Option<Seq<TokenView>>) -> Option<
    Seq<TokenView>,
> {
    match o {
        Some(r) => Some(acc + r),
        None => None,
    }
}

/// Scanning the tokens from `i` at `<>` depth `depth`: the tokens inside the
/// brackets that the scan opens, without those brackets, once they close.
/// Tokens ahead of the first `<` are passed over. `None` where a `>` comes at
/// depth zero or the brackets never close.
pub open spec fn generic_inner(s: Seq<TokenView>, i: nat, depth: nat) -> Option<Seq<TokenView>>
    decreases s.len() - i,
{
    if i >= s.len() {
        None
    } else if s[i as int] == TokenView::Punct('<') {
        let rest = generic_inner(s, i + 1, depth + 1);
        if depth + 1 > 1 {
            prepend(s[i as int], rest)
        } else {
            rest
        }
    } else if s[i as int] == TokenView::Punct('>') {
        if depth == 0 {
            None
        } else if depth == 1 {
            Some(Seq::empty())
        } else {
            prepend(s[i as int], generic_inner(s, i + 1, (depth - 1) as nat))
        }
    } else if depth >= 1 {
        prepend(s[i as int], generic_inner(s, i + 1, depth))
    } else {
        generic_inner(s, i + 1, depth)
    }
}

/// The tokens between the `<` at or after `start` and its matching `>`.
pub fn collect_generic_tokens(tokens: &Vec<TokenTree>, start: usize) -> (r: Option<Vec<TokenTree>>)
    ensures
        match generic_inner(tokens_view(tokens@), start as nat, 0) {
            Some(inner) => r matches Some(v) && tokens_view(v@) == inner,
            None => r is None,
        },
{
    let ghost s = tokens_view(tokens@);
    proof {
        lemma_tokens_view(tokens@);
    }
    let n = tokens.len();
    let mut depth: usize = 0;
    let mut inner: Vec<TokenTree> = Vec::new();
    let mut i: usize = start;
    assert(prepend_all(Seq::empty(), generic_inner(s, start as nat, 0)) == generic_inner(
        s,
        start as nat,
        0,
    )) by {
        match generic_inner(s, start as nat, 0) {
            Some(r) => assert(Seq::<TokenView>::empty() + r =~= r),
            None => {},
        }
    }
    while i < n
        invariant
            n == tokens.len(),
            s == tokens_view(tokens@),
            s.len() == n,
            forall|k: int| 0 <= k < n ==> #[trigger] s[k] == token_view(tokens@[k]),
            depth <= i,
            generic_inner(s, start as nat, 0) == prepend_all(
                tokens_view(inner@),
                generic_inner(s, i as nat, depth as nat),
            ),
        decreases n - i,
    {
        let ghost acc = tokens_view(inner@);
        let ghost tail = generic_inner(s, (i + 1) as nat, 0);
        let t = copy_token(&tokens[i]);
        let (is_open, is_close) = match &t {
            TokenTree::Punct(c) => (*c == '<', *c == '>'),
            _ => (false, false),
        };
        if is_open {
            depth = depth + 1;
            if depth > 1 {
                proof {
                    lemma_tokens_view_push(inner@, t);
                }
                inner.push(t);
                proof {
                    let g = generic_inner(s, (i + 1) as nat, depth as nat);
                    match g {
                        Some(r) => assert(acc + (seq![s[i as int]] + r) =~= acc.push(s[i as int])
                            + r),
                        None => {},
                    }
                }
            }
        } else if is_close {
            if depth == 0 {
                return None;
            }
            depth = depth - 1;
            if depth == 0 {
                assert(acc + Seq::<TokenView>::empty() =~= acc);
                return Some(inner);
            }
            proof {
                lemma_tokens_view_push(inner@, t);
            }
            inner.push(t);
            proof {
                let g = generic_inner(s, (i + 1) as nat, depth as nat);
                match g {
                    Some(r) => assert(acc + (seq![s[i as int]] + r) =~= acc.push(s[i as int])
                        + r),
                    None => {},
                }
            }
        } else if depth >= 1 {
            proof {
                lemma_tokens_view_push(inner@, t);
            }
            inner.push(t);
            proof {
                let g = generic_inner(s, (i + 1) as nat, depth as nat);
                match g {
                    Some(r) => assert(acc + (seq![s[i as int]] + r) =~= acc.push(s[i as int])
                        + r),
                    None => {},
                }
            }
        }
        i = i + 1;
    }
    None
}

/// The first index at or after `k` that holds no `:`.
pub open spec fn skip_colons(s: Seq<TokenView>, k: nat) -> nat
    decreases s.len() - k,
{
    if k < s.len() && s[k as int] == TokenView::Punct(':') {
        skip_colons(s, k + 1)
    } else {
        k
    }
}

/// The item type of the first `Streaming` that `<` follows (past any `::`),
/// scanning from `index`; `None` where there is none, or where its brackets
/// do not close, or where they hold no item type.
pub open spec fn streaming_from(s: Seq<TokenView>, index: nat) -> Option<Seq<TokenView>>
    decreases s.len() - index,
{
    if index >= s.len() {
        None
    } else if s[index as int] == TokenView::Ident("Streaming"@) {
        let j = skip_colons(s, index + 1);
        if j < s.len() && s[j as int] == TokenView::Punct('<') {
            match generic_inner(s, j, 0) {
                Some(inner) => stream_item(split_parts(inner, ',')),
                None => None,
            }
        } else {
            streaming_from(s, index + 1)
        }
    } else {
        streaming_from(s, index + 1)
    }
}

/// The item type of a `Streaming<T>` return type: `Some(T)` for a
/// server-streaming method, `None` for a unary one.
pub fn extract_streaming_return_type(ty: &Vec<TokenTree>) -> (r: Option<Vec<TokenTree>>)
    ensures
        match streaming_from(tokens_view(ty@), 0) {
            Some(item) => r matches Some(v) && tokens_view(v@) == item,
            None => r is None,
        },
{
    let ghost s = tokens_view(ty@);
    proof {
        lemma_tokens_view(ty@);
    }
    let n = ty.len();
    let streaming = String::from_str("Streaming");
    let mut index: usize = 0;
    while index < n
        invariant
            n == ty.len(),
            s == tokens_view(ty@),
            s.len() == n,
            forall|k: int| 0 <= k < n ==> #[trigger] s[k] == token_view(ty@[k]),
            streaming@ == "Streaming"@,
            index <= n,
            streaming_from(s, 0) == streaming_from(s, index as nat),
        decreases n - index,
    {
        let is_streaming = match &ty[index] {
            TokenTree::Ident(name) => *name == streaming,
            _ => false,
        };
        if is_streaming {
            let mut search: usize = index + 1;
            while search < n
                invariant
                    n == ty.len(),
                    s == tokens_view(ty@),
                    s.len() == n,
                    forall|k: int| 0 <= k < n ==> #[trigger] s[k] == token_view(ty@[k]),
                    index < search <= n,
                    skip_colons(s, (index + 1) as nat) == skip_colons(s, search as nat),
                    s[index as int] == TokenView::Ident("Streaming"@),
                    streaming_from(s, 0) == streaming_from(s, index as nat),
                ensures
                    streaming_from(s, index as nat) == streaming_from(s, (index + 1) as nat),
                decreases n - search,
            {
                let (is_open, is_colon) = match &ty[search] {
                    TokenTree::Punct(c) => (*c == '<', *c == ':'),
                    _ => (false, false),
                };
                if is_open {
                    let inner = collect_generic_tokens(ty, search);
                    match inner {
                        Some(inner) => {
                            return select_stream_item_type(inner);
                        },
                        None => {
                            return None;
                        },
                    }
                }
                if !is_colon {
                    break ;
                }
                search = search + 1;
            }
        }
        index = index + 1;
    }
    None
}

// =============================================================================
// Methods
// =============================================================================

/// An argument of a service method, `&self` left out.
#[derive(Debug)]
pub struct ParsedArg {
    /// The argument's name.
    pub name: String,
    /// The argument's type.
    pub ty: Vec<TokenTree>,
}

/// A method of a service trait, as read from its declaration.
#[derive(Debug)]
pub struct ParsedMethod {
    /// The method's name.
    pub name: String,
    /// The arguments after `&self`.
    pub args: Vec<ParsedArg>,
    /// The declared return type.
    pub return_type: Vec<TokenTree>,
    /// The method's documentation text.
    pub doc: String,
}

/// Method kind: unary or server-streaming.
#[derive(Debug)]
pub enum MethodKind {
    /// Unary RPC: single request, single response.
    Unary,
    /// Server-streaming: single request, returns `Streaming<T>`.
    ServerStreaming {
        /// The type `T` in `Streaming<T>`.
        item_type: Vec<TokenTree>,
    },
}

/// The kind that a return type gives a method: server-streaming with the
/// streamed item type where it is a `Streaming<T>`, unary otherwise.
pub open spec fn kind_matches(kind: MethodKind, return_type: Seq<TokenView>) -> bool {
    match streaming_from(return_type, 0) {
        Some(item) => kind matches MethodKind::ServerStreaming { item_type } && tokens_view(
            item_type@,
        ) == item,
        None => kind is Unary,
    }
}

/// A service method with its kind.
#[derive(Debug)]
pub struct MethodInfo {
    /// The method's name.
    pub name: String,
    /// The arguments after `&self`.
    pub args: Vec<ParsedArg>,
    /// The declared return type.
    pub return_type: Vec<TokenTree>,
    /// Unary or server-streaming.
    pub kind: MethodKind,
    /// The method's documentation text.
    pub doc: String,
}

impl MethodInfo {
    /// Classifies a parsed method by its return type.
    pub fn try_from_parsed(method: ParsedMethod) -> (r: Result<MethodInfo, CodegenError>)
        ensures
            r matches Ok(info) && info.name == method.name && info.args == method.args
                && info.return_type == method.return_type && info.doc == method.doc
                && kind_matches(info.kind, tokens_view(method.return_type@)),
    {
        let kind = match extract_streaming_return_type(&method.return_type) {
            Some(item_type) => MethodKind::ServerStreaming { item_type },
            None => MethodKind::Unary,
        };
        Ok(
            MethodInfo {
                name: method.name,
                args: method.args,
                return_type: method.return_type,
                kind,
                doc: method.doc,
            },
        )
    }
}

// =============================================================================
// Method IDs
// =============================================================================

/// The method ID of `service.method`, over the UTF-8 bytes of the names.
pub open spec fn method_id_for(service: Seq<char>, method: Seq<char>) -> u32 {
    method_id_of(encode_utf8(service), encode_utf8(method))
}

/// The names of the methods.
pub open spec fn method_names(methods: Seq<MethodInfo>) -> Seq<Seq<char>> {
    methods.map_values(|m: MethodInfo| m.name@)
}

/// The IDs of the methods of a service, in order.
pub open spec fn method_ids_for(service: Seq<char>, names: Seq<Seq<char>>) -> Seq<u32> {
    names.map_values(|n: Seq<char>| method_id_for(service, n))
}

/// An earlier position holds the same ID as `k`.
pub open spec fn repeats_at(ids: Seq<u32>, k: int) -> bool {
    exists|j: int| 0 <= j < k && ids[j] == ids[k]
}

/// The name that the collision message gives for the method at `k`: the
/// first method, from `j` on, with `k`'s ID and another name, or `unknown`.
pub open spec fn collision_partner(names: Seq<Seq<char>>, ids: Seq<u32>, k: int, j: nat) -> Seq<
    char,
>
    decreases names.len() - j,
{
    if j >= names.len() {
        "unknown"@
    } else if ids[j as int] == ids[k] && names[j as int] != names[k] {
        names[j as int]
    } else {
        collision_partner(names, ids, k, j + 1)
    }
}

/// No two methods share an ID.
pub open spec fn ids_distinct(ids: Seq<u32>) -> bool {
    forall|k: int| 0 <= k < ids.len() ==> !repeats_at(ids, k)
}

/// `e` reports the first method whose ID an earlier method has, with its ID
/// and the name of a method it collides with.
pub open spec fn collision_error(names: Seq<Seq<char>>, ids: Seq<u32>, e: CodegenError) -> bool {
    exists|k: int|
        0 <= k < ids.len() && repeats_at(ids, k) && (forall|k2: int|
            0 <= k2 < k ==> !repeats_at(ids, k2)) && (e matches CodegenError::HashCollision {
            method,
            collision_with,
            method_id,
        } && method@ == names[k] && method_id == ids[k] && collision_with@ == collision_partner(
            names,
            ids,
            k,
            0,
        ))
}

/// Errors of service code generation.
#[derive(Debug)]
pub enum CodegenError {
    /// `rapace` is no dependency, but `rapace_core` is.
    InternalCrate,
    /// Neither `rapace` nor `rapace_core` is a dependency.
    RapaceNotFound,
    /// Two methods of the service hash to the same method ID.
    HashCollision { method: String, collision_with: String, method_id: u32 },
}

/// The message of a code generation error.
pub open spec fn codegen_error_text(e: CodegenError) -> Seq<char> {
    match e {
        CodegenError::InternalCrate =>
            "Internal crates using rapace_macros must add `rapace` as a dependency, or you can create a facade module. See rapace-testkit for an example."@,
        CodegenError::RapaceNotFound =>
            "rapace crate not found in dependencies. Add `rapace = \"...\"` to your Cargo.toml"@,
        CodegenError::HashCollision { method, collision_with, method_id } =>
            "Hash collision detected: methods '"@ + method@ + "' and '"@ + collision_with@
            + "' both hash to method_id "@ + decimal_text(method_id as nat)
            + ". This is extremely rare but indicates you need to rename one of these methods."@,
    }
}

impl CodegenError {
    /// The error's message.
    pub fn to_string(&self) -> (r: String)
        ensures
            r@ == codegen_error_text(*self),
    {
        match self {
            CodegenError::InternalCrate => String::from_str(
                "Internal crates using rapace_macros must add `rapace` as a dependency, or you can create a facade module. See rapace-testkit for an example.",
            ),
            CodegenError::RapaceNotFound => String::from_str(
                "rapace crate not found in dependencies. Add `rapace = \"...\"` to your Cargo.toml",
            ),
            CodegenError::HashCollision { method, collision_with, method_id } => {
                let mut s = String::from_str("Hash collision detected: methods '");
                s.append(method.as_str());
                s.append("' and '");
                s.append(collision_with.as_str());
                s.append("' both hash to method_id ");
                push_decimal(&mut s, *method_id as u64);
                s.append(
                    ". This is extremely rare but indicates you need to rename one of these methods.",
                );
                s
            },
        }
    }
}

/// The IDs of the service's methods, in order, or the collision that the
/// first method whose ID an earlier method has makes.
pub fn check_method_ids(service_name: &str, methods: &Vec<MethodInfo>) -> (r: Result<
    Vec<u32>,
    CodegenError,
>)
    ensures
        ({
            let names = method_names(methods@);
            let ids = method_ids_for(service_name@, names);
            match r {
                Ok(v) => v@ == ids && ids_distinct(ids),
                Err(e) => collision_error(names, ids, e),
            }
        }),
{
    let ghost names = method_names(methods@);
    let ghost ids = method_ids_for(service_name@, names);
    let n = methods.len();
    let mut all: Vec<u32> = Vec::new();
    let mut i: usize = 0;
    while i < n
        invariant
            n == methods.len(),
            i <= n,
            names == method_names(methods@),
            ids == method_ids_for(service_name@, names),
            all@ == ids.take(i as int),
        decreases n - i,
    {
        let id = compute_method_id(service_name, methods[i].name.as_str());
        all.push(id);
        assert(all@ =~= ids.take(i + 1));
        i = i + 1;
    }
    assert(ids.take(n as int) =~= ids);
    let mut k: usize = 0;
    while k < n
        invariant
            n == methods.len(),
            k <= n,
            names == method_names(methods@),
            ids == method_ids_for(service_name@, names),
            all@ == ids,
            forall|k2: int| 0 <= k2 < k ==> !repeats_at(ids, k2),
        decreases n - k,
    {
        let mut j: usize = 0;
        let mut seen = false;
        while j < k
            invariant
                k < n,
                all@ == ids,
                ids.len() == n,
                j <= k,
                seen ==> repeats_at(ids, k as int),
                !seen ==> forall|j2: int| 0 <= j2 < j ==> ids[j2] != ids[k as int],
            decreases k - j,
        {
            if all[j] == all[k] {
                seen = true;
            }
            j = j + 1;
        }
        if seen {
            let mut p: usize = 0;
            while p < n
                invariant
                    n == methods.len(),
                    k < n,
                    p <= n,
                    names == method_names(methods@),
                    ids == method_ids_for(service_name@, names),
                    all@ == ids,
                    repeats_at(ids, k as int),
                    forall|k2: int| 0 <= k2 < k ==> !repeats_at(ids, k2),
                    collision_partner(names, ids, k as int, 0) == collision_partner(
                        names,
                        ids,
                        k as int,
                        p as nat,
                    ),
                decreases n - p,
            {
                if all[p] == all[k] && methods[p].name != methods[k].name {
                    return Err(
                        CodegenError::HashCollision {
                            method: methods[k].name.clone(),
                            collision_with: methods[p].name.clone(),
                            method_id: all[k],
                        },
                    );
                }
                p = p + 1;
            }
            return Err(
                CodegenError::HashCollision {
                    method: methods[k].name.clone(),
                    collision_with: String::from_str("unknown"),
                    method_id: all[k],
                },
            );
        }
        k = k + 1;
    }
    Ok(all)
}

// =============================================================================
// Crate paths and item names
// =============================================================================

/// The path by which generated code names the `rapace` crate, from the lookup
/// of `rapace` and whether `rapace_core` is a dependency.
pub open spec fn rapace_path_spec(rapace: Result<FoundCrate, Error>, rapace_core_found: bool) -> Result<
    Seq<char>,
    CodegenError,
> {
    match rapace {
        Ok(FoundCrate::Itself) => Ok("rapace"@),
        Ok(FoundCrate::Name(name)) => Ok(name@),
        Err(_) => if rapace_core_found {
            Err(CodegenError::InternalCrate)
        } else {
            Err(CodegenError::RapaceNotFound)
        },
    }
}

/// The path of the `rapace` crate in generated code: `rapace` itself, the
/// name it goes by, or the error for a crate that does not depend on it.
pub fn rapace_crate_path(rapace: &Result<FoundCrate, Error>, rapace_core_found: bool) -> (r:
    Result<String, CodegenError>)
    ensures
        match rapace_path_spec(*rapace, rapace_core_found) {
            Ok(path) => r matches Ok(p) && p@ == path,
            Err(e) => r matches Err(e2) && e2 == e,
        },
{
    match rapace {
        Ok(FoundCrate::Itself) => Ok(String::from_str("rapace")),
        Ok(FoundCrate::Name(name)) => Ok(name.clone()),
        Err(_) => {
            if rapace_core_found {
                Err(CodegenError::InternalCrate)
            } else {
                Err(CodegenError::RapaceNotFound)
            }
        },
    }
}

/// The path of `rapace_cell` from one lookup: `crate` (inside it) or its name.
pub open spec fn cell_path_of(found: FoundCrate) -> (Seq<char>, bool) {
    match found {
        FoundCrate::Itself => ("crate"@, true),
        FoundCrate::Name(name) => (name@, false),
    }
}

/// The path of `rapace_cell` in generated code and whether the code is inside
/// it, from the lookups under `rapace_cell` and `rapace-cell`; `None` where
/// neither finds it.
pub fn rapace_cell_path(
    underscored: &Result<FoundCrate, Error>,
    hyphenated: &Result<FoundCrate, Error>,
) -> (r: Option<(String, bool)>)
    ensures
        match (*underscored, *hyphenated) {
            (Ok(f), _) => r matches Some(p) && (p.0@, p.1) == cell_path_of(f),
            (Err(_), Ok(f)) => r matches Some(p) && (p.0@, p.1) == cell_path_of(f),
            (Err(_), Err(_)) => r is None,
        },
{
    let found = match underscored {
        Ok(f) => f,
        Err(_) => match hyphenated {
            Ok(f) => f,
            Err(_) => {
                return None;
            },
        },
    };
    match found {
        FoundCrate::Itself => Some((String::from_str("crate"), true)),
        FoundCrate::Name(name) => Some((name.clone(), false)),
    }
}

/// What `heck` makes of a text in snake case.
pub uninterp spec fn heck_snake_case(s: Seq<char>) -> Seq<char>;

/// What `heck` makes of a text in shouty snake case.
pub uninterp spec fn heck_shouty_snake_case(s: Seq<char>) -> Seq<char>;

/// Calls `heck::ToSnakeCase::to_snake_case`: the words of the text, lower
/// case, joined by `_`. The contract names the result and says no more.
#[verifier::external_body]
fn snake_case_of(s: &str) -> (r: String)
    ensures
        r@ == heck_snake_case(s@),
{
    s.to_snake_case()
}

/// Calls `heck::ToShoutySnakeCase::to_shouty_snake_case`: the words of the
/// text, upper case, joined by `_`. The contract names the result and says no
/// more.
#[verifier::external_body]
fn shouty_snake_case_of(s: &str) -> (r: String)
    ensures
        r@ == heck_shouty_snake_case(s@),
{
    s.to_shouty_snake_case()
}

/// The names of the items generated for a service trait.
#[derive(Debug)]
pub struct ServiceNames {
    /// `{Trait}Client`.
    pub client: String,
    /// `{Trait}Server`.
    pub server: String,
    /// `{Trait}RegistryClient`.
    pub registry_client: String,
    /// `{trait_snake}_register`.
    pub register_fn: String,
}

/// The names of the items generated for the trait `trait_name`.
pub fn service_names(trait_name: &str) -> (r: ServiceNames)
    ensures
        r.client@ == trait_name@ + "Client"@,
        r.server@ == trait_name@ + "Server"@,
        r.registry_client@ == trait_name@ + "RegistryClient"@,
        r.register_fn@ == heck_snake_case(trait_name@) + "_register"@,
{
    let mut client = String::from_str(trait_name);
    client.append("Client");
    let mut server = String::from_str(trait_name);
    server.append("Server");
    let mut registry_client = String::from_str(trait_name);
    registry_client.append("RegistryClient");
    let mut register_fn = snake_case_of(trait_name);
    register_fn.append("_register");
    ServiceNames { client, server, registry_client, register_fn }
}

/// The constant that holds a method's ID:
/// `{TRAIT_SHOUTY}_METHOD_ID_{METHOD_SHOUTY}`.
pub fn method_id_const_name(trait_name: &str, method_name: &str) -> (r: String)
    ensures
        r@ == heck_shouty_snake_case(trait_name@) + "_METHOD_ID_"@ + heck_shouty_snake_case(
            method_name@,
        ),
{
    let mut s = shouty_snake_case_of(trait_name);
    let m = shouty_snake_case_of(method_name);
    s.append("_METHOD_ID_");
    s.append(m.as_str());
    s
}

/// The field of the registry client that holds a method's ID:
/// `{method}_method_id`.
pub fn method_id_field_name(method_name: &str) -> (r: String)
    ensures
        r@ == method_name@ + "_method_id"@,
{
    let mut s = String::from_str(method_name);
    s.append("_method_id");
    s
}

// =============================================================================
// The plan of a service
// =============================================================================

/// What the service attribute generates code from.
#[derive(Debug)]
pub struct ServicePlan {
    /// The path of the `rapace` crate in generated code.
    pub rapace_crate: String,
    /// The names of the generated items.
    pub names: ServiceNames,
    /// The methods with their kinds, in declaration order.
    pub methods: Vec<MethodInfo>,
    /// The method IDs, in declaration order.
    pub method_ids: Vec<u32>,
    /// The names of the method ID constants, in declaration order.
    pub method_id_consts: Vec<String>,
    /// The path of `rapace_cell` and whether the code is inside it.
    pub rapace_cell: Option<(String, bool)>,
}

/// The names of parsed methods.
pub open spec fn parsed_names(methods: Seq<ParsedMethod>) -> Seq<Seq<char>> {
    methods.map_values(|m: ParsedMethod| m.name@)
}

/// The plan holds the methods in order, each with the kind its return type
/// gives, their IDs and the names of their ID constants.
pub open spec fn plan_methods_match(
    trait_name: Seq<char>,
    methods: Seq<ParsedMethod>,
    plan: ServicePlan,
) -> bool {
    &&& plan.methods@.len() == methods.len()
    &&& plan.method_ids@ == method_ids_for(trait_name, parsed_names(methods))
    &&& plan.method_id_consts@.len() == methods.len()
    &&& forall|i: int|
        0 <= i < methods.len() ==> {
            let m = #[trigger] plan.methods@[i];
            &&& m.name == methods[i].name
            &&& m.args == methods[i].args
            &&& m.return_type == methods[i].return_type
            &&& m.doc == methods[i].doc
            &&& kind_matches(m.kind, tokens_view(methods[i].return_type@))
            &&& plan.method_id_consts@[i]@ == heck_shouty_snake_case(trait_name) + "_METHOD_ID_"@
                + heck_shouty_snake_case(methods[i].name@)
        }
}

/// Plans the code for a service trait: the `rapace` path (or the error for a
/// crate without it), the methods with their kinds, their IDs (or the first
/// collision), the names of the generated items, and the `rapace_cell` path.
pub fn plan_service(
    trait_name: &str,
    methods: Vec<ParsedMethod>,
    rapace: &Result<FoundCrate, Error>,
    rapace_core_found: bool,
    cell_underscored: &Result<FoundCrate, Error>,
    cell_hyphenated: &Result<FoundCrate, Error>,
) -> (r: Result<ServicePlan, CodegenError>)
    ensures
        match rapace_path_spec(*rapace, rapace_core_found) {
            Err(e) => r matches Err(e2) && e2 == e,
            Ok(path) => {
                let ids = method_ids_for(trait_name@, parsed_names(methods@));
                if ids_distinct(ids) {
                    r matches Ok(plan) && plan.rapace_crate@ == path && plan_methods_match(
                        trait_name@,
                        methods@,
                        plan,
                    ) && plan.names.client@ == trait_name@ + "Client"@ && plan.names.server@
                        == trait_name@ + "Server"@ && plan.names.registry_client@ == trait_name@
                        + "RegistryClient"@ && plan.names.register_fn@ == heck_snake_case(
                        trait_name@,
                    ) + "_register"@ && match (*cell_underscored, *cell_hyphenated) {
                        (Ok(f), _) => plan.rapace_cell matches Some(p) && (p.0@, p.1)
                            == cell_path_of(f),
                        (Err(_), Ok(f)) => plan.rapace_cell matches Some(p) && (p.0@, p.1)
                            == cell_path_of(f),
                        (Err(_), Err(_)) => plan.rapace_cell is None,
                    }
                } else {
                    r matches Err(e) && collision_error(parsed_names(methods@), ids, e)
                }
            },
        },
{
    let rapace_crate = match rapace_crate_path(rapace, rapace_core_found) {
        Ok(p) => p,
        Err(e) => {
            return Err(e);
        },
    };
    let ghost parsed = methods@;
    let n = methods.len();
    let mut infos: Vec<MethodInfo> = Vec::new();
    assert(methods@.skip(0) =~= methods@);
    let mut rest = methods;
    let mut i: usize = 0;
    while i < n
        invariant
            n == parsed.len(),
            i <= n,
            rest@ == parsed.skip(i as int),
            infos@.len() == i,
            forall|j: int|
                0 <= j < i ==> {
                    let m = #[trigger] infos@[j];
                    &&& m.name == parsed[j].name
                    &&& m.args == parsed[j].args
                    &&& m.return_type == parsed[j].return_type
                    &&& m.doc == parsed[j].doc
                    &&& kind_matches(m.kind, tokens_view(parsed[j].return_type@))
                },
        decreases n - i,
    {
        let m = rest.remove(0);
        assert(m == parsed[i as int]);
        assert(rest@ =~= parsed.skip(i + 1));
        let info = match MethodInfo::try_from_parsed(m) {
            Ok(info) => info,
            Err(e) => {
                return Err(e);
            },
        };
        infos.push(info);
        i = i + 1;
    }
    assert(method_names(infos@) =~= parsed_names(parsed));
    let method_ids = match check_method_ids(trait_name, &infos) {
        Ok(ids) => ids,
        Err(e) => {
            return Err(e);
        },
    };
    let mut consts: Vec<String> = Vec::new();
    let mut k: usize = 0;
    while k < n
        invariant
            n == infos.len(),
            n == parsed.len(),
            k <= n,
            consts@.len() == k,
            forall|j: int| 0 <= j < n ==> (#[trigger] infos@[j]).name == parsed[j].name,
            forall|j: int|
                0 <= j < k ==> (#[trigger] consts@[j])@ == heck_shouty_snake_case(trait_name@)
                    + "_METHOD_ID_"@ + heck_shouty_snake_case(parsed[j].name@),
        decreases n - k,
    {
        let c = method_id_const_name(trait_name, infos[k].name.as_str());
        consts.push(c);
        k = k + 1;
    }
    let names = service_names(trait_name);
    let rapace_cell = rapace_cell_path(cell_underscored, cell_hyphenated);
    Ok(
        ServicePlan {
            rapace_crate,
            names,
            methods: infos,
            method_ids,
            method_id_consts: consts,
            rapace_cell,
        },
    )
}

} // verus!
