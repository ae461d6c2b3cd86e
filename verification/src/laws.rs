//! General laws of the parser, proved over the model: what resolution
//! returns for absent, present and unknown options, that re-parsing changes
//! nothing, and what help rendering emits without option declarations.

use vstd::prelude::*;

use crate::model::help_line;
use crate::model::help_lines;
use crate::model::long_match;
use crate::model::max_full_len;
use crate::model::max_short_len;
use crate::model::matched;
use crate::model::parse_step;
use crate::model::resolve_req_upto;
use crate::model::resolved_map;
use crate::model::resolved_value;
use crate::model::short_match;
use crate::model::value_lookup;
use crate::model::ItemView;
use crate::model::ParserModel;

verus! {

/// A value-requiring option that no token matches, by short or long form,
/// resolves to its default value.
pub proof fn lemma_required_absent_default(o: ItemView, s: Seq<Seq<char>>)
    requires
        o.arg_required,
        forall|i: int|
            0 <= i < s.len() ==> !short_match(o, #[trigger] s[i]) && !long_match(o, s[i]),
    ensures
        resolved_value(o, s) == o.value,
{
    lemma_resolve_req_no_match(o, s, s.len() as int);
}

/// Scanning tokens that never match leaves a value-requiring option at its
/// default.
proof fn lemma_resolve_req_no_match(o: ItemView, s: Seq<Seq<char>>, n: int)
    requires
        n <= s.len(),
        forall|i: int|
            0 <= i < s.len() ==> !short_match(o, #[trigger] s[i]) && !long_match(o, s[i]),
    ensures
        resolve_req_upto(o, s, n) == o.value,
    decreases n,
{
    if n > 0 {
        lemma_resolve_req_no_match(o, s, n - 1);
    }
}

/// A flag-style option that no token matches resolves to its declared
/// default, never to the empty string unless the default is empty.
pub proof fn lemma_flag_absent_default(o: ItemView, s: Seq<Seq<char>>)
    requires
        !o.arg_required,
        !matched(o, s),
    ensures
        resolved_value(o, s) == o.value,
{
}

/// A flag-style option that some token matches resolves to the literal
/// "true", whatever its declared default.
pub proof fn lemma_flag_present_true(o: ItemView, s: Seq<Seq<char>>)
    requires
        !o.arg_required,
        matched(o, s),
    ensures
        resolved_value(o, s) == "true"@,
{
}

/// A key that is no declared option's short form is absent from the
/// resolved-value map, whatever the raw arguments hold, so a query of it
/// returns the empty string.
pub proof fn lemma_unknown_option_empty(options: Seq<ItemView>, s: Seq<Seq<char>>, k: Seq<char>)
    requires
        forall|j: int| 0 <= j < options.len() ==> (#[trigger] options[j]).option != k,
    ensures
        !resolved_map(options, s).dom().contains(k),
        value_lookup(resolved_map(options, s), k) == Seq::<char>::empty(),
    decreases options.len(),
{
    if options.len() > 0 {
        let front = options.drop_last();
        assert forall|j: int| 0 <= j < front.len() implies (#[trigger] front[j]).option != k by {
            assert(front[j] == options[j]);
        }
        lemma_unknown_option_empty(front, s, k);
    }
}

/// A declared option whose short form no later declaration repeats is
/// resolved in the map exactly as its own resolution says.
pub proof fn lemma_registered_lookup(options: Seq<ItemView>, s: Seq<Seq<char>>, j: int)
    requires
        0 <= j < options.len(),
        forall|jj: int|
            j < jj < options.len() ==> (#[trigger] options[jj]).option != options[j].option,
    ensures
        resolved_map(options, s).dom().contains(options[j].option),
        value_lookup(resolved_map(options, s), options[j].option) == resolved_value(
            options[j],
            s,
        ),
    decreases options.len(),
{
    if j < options.len() - 1 {
        let front = options.drop_last();
        assert forall|jj: int| j < jj < front.len() implies (#[trigger] front[jj]).option
            != front[j].option by {
            assert(front[jj] == options[jj]);
        }
        lemma_registered_lookup(front, s, j);
    }
}

/// A value query after a pass: a declared, unrepeated, value-requiring
/// option that no token matches returns its declared default value.
pub proof fn lemma_query_required_absent(options: Seq<ItemView>, s: Seq<Seq<char>>, j: int)
    requires
        0 <= j < options.len(),
        forall|jj: int|
            j < jj < options.len() ==> (#[trigger] options[jj]).option != options[j].option,
        options[j].arg_required,
        forall|i: int|
            0 <= i < s.len() ==> !short_match(options[j], #[trigger] s[i]) && !long_match(
                options[j],
                s[i],
            ),
    ensures
        value_lookup(resolved_map(options, s), options[j].option) == options[j].value,
{
    lemma_registered_lookup(options, s, j);
    lemma_required_absent_default(options[j], s);
}

/// A value query after a pass: a declared, unrepeated flag-style option
/// that no token matches returns its declared default value, never the
/// empty string unless the default is empty.
pub proof fn lemma_query_flag_absent(options: Seq<ItemView>, s: Seq<Seq<char>>, j: int)
    requires
        0 <= j < options.len(),
        forall|jj: int|
            j < jj < options.len() ==> (#[trigger] options[jj]).option != options[j].option,
        !options[j].arg_required,
        !matched(options[j], s),
    ensures
        value_lookup(resolved_map(options, s), options[j].option) == options[j].value,
{
    lemma_registered_lookup(options, s, j);
}

/// A value query after a pass: a declared, unrepeated flag-style option
/// that some token matches returns the literal "true", whatever its
/// declared default.
pub proof fn lemma_query_flag_present(options: Seq<ItemView>, s: Seq<Seq<char>>, j: int)
    requires
        0 <= j < options.len(),
        forall|jj: int|
            j < jj < options.len() ==> (#[trigger] options[jj]).option != options[j].option,
        !options[j].arg_required,
        matched(options[j], s),
    ensures
        value_lookup(resolved_map(options, s), options[j].option) == "true"@,
{
    lemma_registered_lookup(options, s, j);
}

/// Re-running the resolution pass on unchanged raw arguments and options
/// yields identical resolved values and positionals: the second pass leaves
/// the parser state exactly where the first pass put it.
pub proof fn lemma_parse_idempotent(s0: ParserModel, s1: ParserModel, s2: ParserModel)
    requires
        parse_step(s0, s1),
        parse_step(s1, s2),
    ensures
        s1.values == s2.values,
        s1.positionals == s2.positionals,
{
}

/// Help rendering with no option declarations emits only the description
/// line, or nothing at all when the description is empty too.
pub proof fn lemma_help_lines_empty_specs(description: Seq<char>)
    ensures
        description.len() == 0 ==> help_lines(Seq::<ItemView>::empty(), description) == Seq::<
            Seq<char>,
        >::empty(),
        description.len() > 0 ==> help_lines(Seq::<ItemView>::empty(), description) == seq![
            description,
        ],
{
    let body = Seq::new(
        0,
        |i: int|
            help_line(
                Seq::<ItemView>::empty()[i],
                max_short_len(Seq::<ItemView>::empty()),
                max_full_len(Seq::<ItemView>::empty()),
            ),
    );
    assert(body =~= Seq::<Seq<char>>::empty());
    if description.len() > 0 {
        assert(seq![description] + body =~= seq![description]);
    }
}

} // verus!
