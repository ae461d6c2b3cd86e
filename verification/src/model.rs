//! The mathematical model of the parser.
//!
//! Every contract in this crate is stated over these spec functions: an
//! option declaration is an [`ItemView`], a parser state is a
//! [`ParserModel`], and the functions below say what one pass over the raw
//! arguments resolves each option to, which tokens end up as positional
//! arguments, and what the rendered help text looks like.

use vstd::prelude::*;

verus! {

/// Mathematical image of one option declaration.
pub struct ItemView {
    /// The short form, matched against a token by exact equality (e.g. "-h").
    pub option: Seq<char>,
    /// The long form, matched as a prefix of a token (e.g. "--help").
    pub full_option: Seq<char>,
    /// Whether the option carries a value (next token, or text after '=').
    pub arg_required: bool,
    /// The default value, kept when the option is absent or malformed.
    pub value: Seq<char>,
    /// The descriptive line shown by the help rendering.
    pub description: Seq<char>,
}

/// Mathematical image of a parser: the raw arguments, the declared options,
/// the resolved values, the collected positionals and the help description.
pub struct ParserModel {
    pub args: Seq<Seq<char>>,
    pub options: Seq<ItemView>,
    pub values: Map<Seq<char>, Seq<char>>,
    pub positionals: Seq<Seq<char>>,
    pub description: Seq<char>,
}

/// True when the token begins with a dash.
pub open spec fn starts_dash(t: Seq<char>) -> bool {
    t.len() > 0 && t[0] == '-'
}

/// True when `p` is a prefix of `s`.
pub open spec fn is_prefix(p: Seq<char>, s: Seq<char>) -> bool {
    p.len() <= s.len() && s.subrange(0, p.len() as int) == p
}

/// The token equals the option's short form exactly.
pub open spec fn short_match(o: ItemView, t: Seq<char>) -> bool {
    t == o.option
}

/// The token begins with the option's long form.
pub open spec fn long_match(o: ItemView, t: Seq<char>) -> bool {
    is_prefix(o.full_option, t)
}

/// Index of the first '=' in `t`; `t.len()` when there is none.
pub open spec fn eq_index(t: Seq<char>) -> int
    decreases t.len(),
{
    if t.len() == 0 {
        0
    } else if t[0] == '=' {
        0
    } else {
        1 + eq_index(t.subrange(1, t.len() as int))
    }
}

/// True when `t` contains an '='.
pub open spec fn has_eq(t: Seq<char>) -> bool {
    eq_index(t) < t.len()
}

/// The characters after the first '=' in `t`.
pub open spec fn after_eq(t: Seq<char>) -> Seq<char> {
    t.subrange(eq_index(t) + 1, t.len() as int)
}

/// The value a value-requiring option holds after scanning the first `n`
/// tokens, starting from its default. A short-form hit takes the following
/// token, unless that token begins with a dash or is missing; a long-form
/// hit takes the text after the first '=', if any. A later hit overrides an
/// earlier one, and at one index the long form overrides the short form.
pub open spec fn resolve_req_upto(o: ItemView, s: Seq<Seq<char>>, n: int) -> Seq<char>
    decreases n,
{
    if n <= 0 {
        o.value
    } else {
        let i = n - 1;
        let prev = resolve_req_upto(o, s, i);
        let after_short = if short_match(o, s[i]) && i + 1 < s.len() && !starts_dash(s[i + 1]) {
            s[i + 1]
        } else {
            prev
        };
        if long_match(o, s[i]) && has_eq(s[i]) {
            after_eq(s[i])
        } else {
            after_short
        }
    }
}

/// Some token among the first `n` matches the option's short or long form.
pub open spec fn matched_upto(o: ItemView, s: Seq<Seq<char>>, n: int) -> bool {
    exists|i: int|
        0 <= i < n && i < s.len() && (short_match(o, #[trigger] s[i]) || long_match(o, s[i]))
}

/// Some token matches the option's short or long form.
pub open spec fn matched(o: ItemView, s: Seq<Seq<char>>) -> bool {
    matched_upto(o, s, s.len() as int)
}

/// What one resolution pass stores for option `o`: a flag-style option
/// resolves to "true" when present and to its default when absent; a
/// value-requiring option resolves by scanning the whole argument list.
pub open spec fn resolved_value(o: ItemView, s: Seq<Seq<char>>) -> Seq<char> {
    if o.arg_required {
        resolve_req_upto(o, s, s.len() as int)
    } else if matched(o, s) {
        "true"@
    } else {
        o.value
    }
}

/// The resolved-value map after one pass: every declared option's short form
/// is a key, inserted in declaration order, so a duplicated short form is
/// last-write-wins.
pub open spec fn resolved_map(options: Seq<ItemView>, s: Seq<Seq<char>>) -> Map<
    Seq<char>,
    Seq<char>,
>
    decreases options.len(),
{
    if options.len() == 0 {
        Map::empty()
    } else {
        resolved_map(options.drop_last(), s).insert(
            options.last().option,
            resolved_value(options.last(), s),
        )
    }
}

/// What a value query returns: the stored value for a known key, the empty
/// string for any other key.
pub open spec fn value_lookup(values: Map<Seq<char>, Seq<char>>, k: Seq<char>) -> Seq<char> {
    if values.dom().contains(k) {
        values[k]
    } else {
        Seq::empty()
    }
}

/// The token asks for help: it equals "-h" or begins with "--help".
pub open spec fn help_token(t: Seq<char>) -> bool {
    t == "-h"@ || is_prefix("--help"@, t)
}

/// Some token among the first `n` asks for help.
pub open spec fn help_requested_upto(s: Seq<Seq<char>>, n: int) -> bool {
    exists|i: int| 0 <= i < n && i < s.len() && help_token(#[trigger] s[i])
}

/// Some token asks for help.
pub open spec fn help_requested(s: Seq<Seq<char>>) -> bool {
    help_requested_upto(s, s.len() as int)
}

/// How many declared options are value-requiring and have `t` as their
/// short form. The positional scan skips that many extra tokens after `t`.
pub open spec fn req_short_count(options: Seq<ItemView>, t: Seq<char>) -> nat
    decreases options.len(),
{
    if options.len() == 0 {
        0
    } else {
        req_short_count(options.drop_last(), t) + (if options.last().arg_required && short_match(
            options.last(),
            t,
        ) {
            1nat
        } else {
            0nat
        })
    }
}

/// The positional tokens from index `i` on. A token that begins with a dash
/// is dropped, and when it is the short form of a value-requiring option the
/// following token is skipped unconditionally as that option's value; any
/// other token is a positional.
pub open spec fn positionals_from(options: Seq<ItemView>, s: Seq<Seq<char>>, i: int) -> Seq<
    Seq<char>,
>
    decreases s.len() - i,
{
    if i < 0 || i >= s.len() {
        Seq::empty()
    } else if starts_dash(s[i]) {
        let next = i + 1 + req_short_count(options, s[i]);
        if next >= s.len() {
            Seq::empty()
        } else {
            positionals_from(options, s, next)
        }
    } else {
        seq![s[i]] + positionals_from(options, s, i + 1)
    }
}

/// The positional tokens of a whole argument list.
pub open spec fn positionals_of(options: Seq<ItemView>, s: Seq<Seq<char>>) -> Seq<Seq<char>> {
    positionals_from(options, s, 0)
}

/// The view of the resolved-value store: a later entry overrides an earlier
/// one with the same key.
pub open spec fn kv_view(entries: Seq<(String, String)>) -> Map<Seq<char>, Seq<char>>
    decreases entries.len(),
{
    if entries.len() == 0 {
        Map::empty()
    } else {
        kv_view(entries.drop_last()).insert(entries.last().0@, entries.last().1@)
    }
}

/// `n` space characters.
pub open spec fn spaces(n: int) -> Seq<char>
    decreases n,
{
    if n <= 0 {
        Seq::empty()
    } else {
        spaces(n - 1).push(' ')
    }
}

/// `s` padded on the right with spaces to width `w`.
pub open spec fn pad_to(s: Seq<char>, w: int) -> Seq<char> {
    s + spaces(w - s.len())
}

/// The widest short form among the declared options, 0 when there are none.
pub open spec fn max_short_len(options: Seq<ItemView>) -> int
    decreases options.len(),
{
    if options.len() == 0 {
        0
    } else {
        let rest = max_short_len(options.drop_last());
        let l = options.last().option.len() as int;
        if l > rest {
            l
        } else {
            rest
        }
    }
}

/// The widest long form among the declared options, 0 when there are none.
pub open spec fn max_full_len(options: Seq<ItemView>) -> int
    decreases options.len(),
{
    if options.len() == 0 {
        0
    } else {
        let rest = max_full_len(options.drop_last());
        let l = options.last().full_option.len() as int;
        if l > rest {
            l
        } else {
            rest
        }
    }
}

/// One rendered help line: the short and long forms in columns padded to the
/// given widths, then the description.
pub open spec fn help_line(o: ItemView, ws: int, wf: int) -> Seq<char> {
    " "@ + pad_to(o.option, ws) + "\t "@ + pad_to(o.full_option, wf) + "\t : "@ + o.description
}

/// The rendered help text: the description line when it is non-empty, then
/// one line per declared option, columns aligned across all options.
pub open spec fn help_lines(options: Seq<ItemView>, description: Seq<char>) -> Seq<Seq<char>> {
    let body = Seq::new(
        options.len(),
        |i: int| help_line(options[i], max_short_len(options), max_full_len(options)),
    );
    if description.len() == 0 {
        body
    } else {
        seq![description] + body
    }
}

/// How one resolution pass turns a parser state into the next: arguments,
/// options and description are kept, and the resolved values and positionals
/// are recomputed from them alone.
pub open spec fn parse_step(pre: ParserModel, post: ParserModel) -> bool {
    &&& post.args == pre.args
    &&& post.options == pre.options
    &&& post.description == pre.description
    &&& post.values == resolved_map(pre.options, pre.args)
    &&& post.positionals == positionals_of(pre.options, pre.args)
}

/// The positional count lies within the required bounds; a negative
/// `max_count` means unbounded.
pub open spec fn count_within(n: int, min_count: int, max_count: int) -> bool {
    min_count <= n && (max_count < 0 || n <= max_count)
}

/// Scanning one more token matches an option exactly when the earlier
/// tokens did or the new token does.
pub proof fn lemma_matched_upto_step(o: ItemView, s: Seq<Seq<char>>, n: int)
    requires
        0 <= n < s.len(),
    ensures
        matched_upto(o, s, n + 1) == (matched_upto(o, s, n) || short_match(o, s[n]) || long_match(
            o,
            s[n],
        )),
{
    if matched_upto(o, s, n + 1) {
        let w = choose|w: int|
            0 <= w < n + 1 && w < s.len() && (short_match(o, #[trigger] s[w]) || long_match(
                o,
                s[w],
            ));
        if w < n {
            assert(matched_upto(o, s, n));
        }
    }
}

/// Scanning one more token finds a help request exactly when the earlier
/// tokens did or the new token is one.
pub proof fn lemma_help_upto_step(s: Seq<Seq<char>>, n: int)
    requires
        0 <= n < s.len(),
    ensures
        help_requested_upto(s, n + 1) == (help_requested_upto(s, n) || help_token(s[n])),
{
    if help_requested_upto(s, n + 1) {
        let w = choose|w: int| 0 <= w < n + 1 && w < s.len() && help_token(#[trigger] s[w]);
        if w < n {
            assert(help_requested_upto(s, n));
        }
    }
}

/// The first '=' of a token is where the scan finds it.
pub proof fn lemma_eq_index_at(t: Seq<char>, i: int)
    requires
        0 <= i < t.len(),
        t[i] == '=',
        forall|j: int| 0 <= j < i ==> t[j] != '=',
    ensures
        eq_index(t) == i,
    decreases i,
{
    if i > 0 {
        let rest = t.subrange(1, t.len() as int);
        assert forall|j: int| 0 <= j < i - 1 implies rest[j] != '=' by {
            assert(rest[j] == t[j + 1]);
        }
        assert(rest[i - 1] == t[i]);
        lemma_eq_index_at(rest, i - 1);
    }
}

/// A token without '=' has no split point.
pub proof fn lemma_eq_index_none(t: Seq<char>)
    requires
        forall|j: int| 0 <= j < t.len() ==> t[j] != '=',
    ensures
        eq_index(t) >= t.len(),
    decreases t.len(),
{
    if t.len() > 0 {
        let rest = t.subrange(1, t.len() as int);
        assert forall|j: int| 0 <= j < rest.len() implies rest[j] != '=' by {
            assert(rest[j] == t[j + 1]);
        }
        lemma_eq_index_none(rest);
    }
}

/// An entry whose key is not repeated later in the store is what a lookup
/// of that key returns.
pub proof fn lemma_kv_lookup_found(entries: Seq<(String, String)>, j: int)
    requires
        0 <= j < entries.len(),
        forall|jj: int| j < jj < entries.len() ==> (#[trigger] entries[jj]).0@ != entries[j].0@,
    ensures
        kv_view(entries).dom().contains(entries[j].0@),
        kv_view(entries)[entries[j].0@] == entries[j].1@,
    decreases entries.len(),
{
    if j < entries.len() - 1 {
        let front = entries.drop_last();
        assert forall|jj: int| j < jj < front.len() implies (#[trigger] front[jj]).0@
            != front[j].0@ by {
            assert(front[jj] == entries[jj]);
        }
        lemma_kv_lookup_found(front, j);
    }
}

/// A key that no entry of the store carries is absent from its view.
pub proof fn lemma_kv_lookup_absent(entries: Seq<(String, String)>, k: Seq<char>)
    requires
        forall|j: int| 0 <= j < entries.len() ==> (#[trigger] entries[j]).0@ != k,
    ensures
        !kv_view(entries).dom().contains(k),
    decreases entries.len(),
{
    if entries.len() > 0 {
        lemma_kv_lookup_absent(entries.drop_last(), k);
    }
}

} // verus!
