//! The parser itself: holds the raw arguments and the declared options,
//! resolves option values, collects positional arguments and renders help.

use vstd::prelude::*;
use vstd::string::StrSliceExecFns;
use vstd::string::StringExecFns;

use crate::item::OptParseItem;
use crate::model::count_within;
use crate::model::help_line;
use crate::model::help_lines;
use crate::model::help_requested;
use crate::model::help_requested_upto;
use crate::model::kv_view;
use crate::model::lemma_help_upto_step;
use crate::model::lemma_kv_lookup_absent;
use crate::model::lemma_kv_lookup_found;
use crate::model::lemma_matched_upto_step;
use crate::model::matched_upto;
use crate::model::max_full_len;
use crate::model::max_short_len;
use crate::model::parse_step;
use crate::model::positionals_from;
use crate::model::positionals_of;
use crate::model::req_short_count;
use crate::model::resolve_req_upto;
use crate::model::resolved_map;
use crate::model::resolved_value;
use crate::model::spaces;
use crate::model::value_lookup;
use crate::model::ParserModel;
use crate::text::begins_with_dash;
use crate::text::find_eq;
use crate::text::str_eq;
use crate::text::str_starts_with;
use crate::text::tail_after;

verus! {

/// What a command-line parser offers: construction from the raw argument
/// vector and the declared options, one resolution pass, help rendering,
/// and queries for resolved values and positional arguments.
pub trait IOptParse: Sized {
    /// The mathematical state of the parser.
    spec fn model(&self) -> ParserModel;

    /// Constructs a parser that owns the raw arguments (the caller chooses
    /// whether the program name is included), the option declarations and
    /// an optional help description. Nothing is resolved yet.
    fn new(args: Vec<String>, options: Vec<OptParseItem>, description: &str) -> (r: Self)
        ensures
            r.model() == (ParserModel {
                args: args.deep_view(),
                options: options.deep_view(),
                values: Map::<Seq<char>, Seq<char>>::empty(),
                positionals: Seq::<Seq<char>>::empty(),
                description: description@,
            }),
    ;

    /// One full resolution pass: recomputes every option's value and the
    /// positional arguments from the raw arguments, and reports whether
    /// some token asked for help ("-h", or beginning with "--help"). The
    /// caller renders the help in that case, and stops afterwards when it
    /// passed `is_finish_if_help`.
    fn parse_options(&mut self, is_finish_if_help: bool) -> (help_found: bool)
        ensures
            parse_step(old(self).model(), final(self).model()),
            help_found == help_requested(old(self).model().args),
    ;

    /// Resolves one option against the raw arguments and stores the result
    /// under the option's short form, overriding an earlier entry.
    fn parse_option(&mut self, option: &OptParseItem)
        ensures
            ({
                let pre = old(self).model();
                let post = final(self).model();
                &&& post.args == pre.args
                &&& post.options == pre.options
                &&& post.description == pre.description
                &&& post.positionals == pre.positionals
                &&& post.values == pre.values.insert(
                    option@.option,
                    resolved_value(option@, pre.args),
                )
            }),
    ;

    /// Renders the help text: the description line when it is non-empty,
    /// then one line per declared option with the short and long forms in
    /// columns aligned across all options.
    fn print_help(&self) -> (lines: Vec<String>)
        ensures
            lines.deep_view() == help_lines(self.model().options, self.model().description),
    ;

    /// The resolved value stored under `option`, or the empty string when
    /// no resolution stored that key.
    fn get_value(&self, option: &str) -> (r: String)
        ensures
            r@ == value_lookup(self.model().values, option@),
    ;

    /// How many positional arguments the last pass collected.
    fn get_args_count(&self) -> (n: usize)
        ensures
            n == self.model().positionals.len(),
    ;

    /// The positional argument at `index`, or the empty string when the
    /// index is out of range.
    fn get_args(&self, index: usize) -> (r: String)
        ensures
            r@ == (if index < self.model().positionals.len() {
                self.model().positionals[index as int]
            } else {
                Seq::<char>::empty()
            }),
    ;
}

/// A single-use command-line parser: construct it with the raw arguments
/// and the option declarations, run one resolution pass, then query it.
pub struct OptParse {
    args: Vec<String>,
    options: Vec<OptParseItem>,
    values: Vec<(String, String)>,
    arg_values: Vec<String>,
    description: String,
}

impl View for OptParse {
    type V = ParserModel;

    closed spec fn view(&self) -> ParserModel {
        ParserModel {
            args: self.args.deep_view(),
            options: self.options.deep_view(),
            values: kv_view(self.values@),
            positionals: self.arg_values.deep_view(),
            description: self.description@,
        }
    }
}

/// The value one resolution pass gives `option`, scanning `args` from left
/// to right, starting from the option's default.
fn resolve_one(args: &Vec<String>, option: &OptParseItem) -> (r: String)
    ensures
        r@ == resolved_value(option@, args.deep_view()),
{
    let ghost s = args.deep_view();
    let ghost o = option@;
    let argc = args.len();
    let mut value: String = option.value.clone();
    let mut found_set_true = false;
    let mut i: usize = 0;
    while i < argc
        invariant
            i <= argc,
            argc == args.len(),
            s == args.deep_view(),
            o == option@,
            s.len() == argc,
            o.arg_required ==> value@ == resolve_req_upto(o, s, i as int) && !found_set_true,
            !o.arg_required ==> value@ == o.value && found_set_true == matched_upto(
                o,
                s,
                i as int,
            ),
        decreases argc - i,
    {
        proof {
            assert(s[i as int] == args@[i as int]@);
            lemma_matched_upto_step(o, s, i as int);
        }
        let arg = &args[i];
        if str_eq(arg.as_str(), option.option.as_str()) {
            if option.arg_required {
                if i + 1 < argc {
                    proof {
                        assert(s[i as int + 1] == args@[i as int + 1]@);
                    }
                    if !begins_with_dash(args[i + 1].as_str()) {
                        value = args[i + 1].clone();
                    }
                }
            } else {
                found_set_true = true;
            }
        }
        if str_starts_with(arg.as_str(), option.full_option.as_str()) {
            if option.arg_required {
                match find_eq(arg.as_str()) {
                    Some(pos) => {
                        value = tail_after(arg.as_str(), pos);
                    },
                    None => {},
                }
            } else {
                found_set_true = true;
            }
        }
        i += 1;
    }
    if found_set_true {
        value = "true".to_owned();
    }
    value
}

/// How many declared options are value-requiring and have `t` as their
/// short form.
fn count_required_shorts(options: &Vec<OptParseItem>, t: &str) -> (cnt: usize)
    ensures
        cnt == req_short_count(options.deep_view(), t@),
        cnt <= options.len(),
{
    let ghost opts = options.deep_view();
    let mut cnt: usize = 0;
    let mut j: usize = 0;
    while j < options.len()
        invariant
            j <= options.len(),
            cnt <= j,
            opts == options.deep_view(),
            opts.len() == options.len(),
            cnt == req_short_count(opts.take(j as int), t@),
        decreases options.len() - j,
    {
        proof {
            assert(opts.take(j as int + 1).drop_last() =~= opts.take(j as int));
            assert(opts.take(j as int + 1).last() == opts[j as int]);
            assert(opts[j as int] == options@[j as int]@);
        }
        if options[j].arg_required && str_eq(options[j].option.as_str(), t) {
            cnt += 1;
        }
        j += 1;
    }
    proof {
        assert(opts.take(opts.len() as int) =~= opts);
    }
    cnt
}

/// Appends spaces to `line` until a field that started at width `current`
/// reaches width `w`.
fn pad_spaces(line: &mut String, current: usize, w: usize)
    ensures
        final(line)@ == old(line)@ + spaces(w as int - current as int),
{
    let ghost base = line@;
    let mut k: usize = current;
    while k < w
        invariant
            current <= k,
            k <= w || k == current,
            line@ == base + spaces(k as int - current as int),
        decreases w - k,
    {
        line.append(" ");
        k += 1;
        proof {
            reveal_strlit(" ");
            assert(" "@ =~= seq![' ']);
            assert(line@ =~= base + spaces(k as int - current as int));
        }
    }
    proof {
        if current >= w {
            assert(spaces(w as int - current as int) == Seq::<char>::empty());
            assert(line@ =~= base + spaces(w as int - current as int));
        }
    }
}

/// Renders one help line for `item` with the short and long columns padded
/// to widths `ws` and `wf`.
fn render_line(item: &OptParseItem, ws: usize, wf: usize) -> (r: String)
    ensures
        r@ == help_line(item@, ws as int, wf as int),
{
    let mut line: String = " ".to_owned();
    let short_len = item.option.as_str().unicode_len();
    line.append(item.option.as_str());
    pad_spaces(&mut line, short_len, ws);
    line.append("\t ");
    let full_len = item.full_option.as_str().unicode_len();
    line.append(item.full_option.as_str());
    pad_spaces(&mut line, full_len, wf);
    line.append("\t : ");
    line.append(item.description.as_str());
    proof {
        assert(line@ =~= help_line(item@, ws as int, wf as int));
    }
    line
}

impl IOptParse for OptParse {
    open spec fn model(&self) -> ParserModel {
        self@
    }

    fn new(args: Vec<String>, options: Vec<OptParseItem>, description: &str) -> (r: Self) {
        let r = OptParse {
            args,
            options,
            values: Vec::new(),
            arg_values: Vec::new(),
            description: description.to_owned(),
        };
        proof {
            assert(r.values@.len() == 0);
            assert(r.arg_values.deep_view() =~= Seq::<Seq<char>>::empty());
        }
        r
    }

    fn parse_options(&mut self, is_finish_if_help: bool) -> (help_found: bool) {
        let ghost s = self.args.deep_view();
        let ghost opts = self.options.deep_view();
        let ghost desc = self.description@;
        self.values = Vec::new();
        self.arg_values = Vec::new();

        // Resolve every declared option, in declaration order.
        let n_opts = self.options.len();
        let mut j: usize = 0;
        while j < n_opts
            invariant
                j <= n_opts,
                n_opts == self.options.len(),
                s == self.args.deep_view(),
                opts == self.options.deep_view(),
                desc == self.description@,
                self.arg_values@.len() == 0,
                kv_view(self.values@) == resolved_map(opts.take(j as int), s),
            decreases n_opts - j,
        {
            let ghost entries0 = self.values@;
            let v = resolve_one(&self.args, &self.options[j]);
            let k = self.options[j].option.clone();
            self.values.push((k, v));
            proof {
                assert(self.values@.drop_last() =~= entries0);
                assert(opts.take(j as int + 1).drop_last() =~= opts.take(j as int));
                assert(opts.take(j as int + 1).last() == opts[j as int]);
                assert(opts[j as int] == self.options@[j as int]@);
            }
            j += 1;
        }
        proof {
            assert(opts.take(n_opts as int) =~= opts);
        }

        // Look for a help request.
        let argc = self.args.len();
        let mut help_found = false;
        let mut i: usize = 0;
        while i < argc
            invariant
                i <= argc,
                argc == self.args.len(),
                s == self.args.deep_view(),
                opts == self.options.deep_view(),
                desc == self.description@,
                s.len() == argc,
                kv_view(self.values@) == resolved_map(opts, s),
                self.arg_values@.len() == 0,
                help_found == help_requested_upto(s, i as int),
            decreases argc - i,
        {
            proof {
                assert(s[i as int] == self.args@[i as int]@);
                lemma_help_upto_step(s, i as int);
            }
            let arg = &self.args[i];
            if str_eq(arg.as_str(), "-h") || str_starts_with(arg.as_str(), "--help") {
                help_found = true;
            }
            i += 1;
        }

        // Collect the positional arguments: a dash token is dropped, and
        // when it is the short form of a value-requiring option the token
        // after it is skipped unconditionally as that option's value.
        let mut i: usize = 0;
        proof {
            assert(self.arg_values.deep_view() =~= Seq::<Seq<char>>::empty());
        }
        while i < argc
            invariant
                i <= argc,
                argc == self.args.len(),
                s == self.args.deep_view(),
                opts == self.options.deep_view(),
                desc == self.description@,
                s.len() == argc,
                kv_view(self.values@) == resolved_map(opts, s),
                self.arg_values.deep_view() + positionals_from(opts, s, i as int)
                    == positionals_of(opts, s),
            decreases argc - i,
        {
            proof {
                assert(s[i as int] == self.args@[i as int]@);
            }
            let arg = self.args[i].clone();
            if begins_with_dash(arg.as_str()) {
                let cnt = count_required_shorts(&self.options, arg.as_str());
                if cnt >= argc - (i + 1) {
                    proof {
                        assert(positionals_from(opts, s, i as int) == Seq::<Seq<char>>::empty());
                        assert(positionals_from(opts, s, argc as int) == Seq::<
                            Seq<char>,
                        >::empty());
                    }
                    i = argc;
                } else {
                    i = i + 1 + cnt;
                }
            } else {
                let ghost pos0 = self.arg_values.deep_view();
                self.arg_values.push(arg);
                proof {
                    assert(self.arg_values.deep_view() =~= pos0.push(s[i as int]));
                    assert(pos0.push(s[i as int]) + positionals_from(opts, s, i as int + 1)
                        =~= pos0 + (seq![s[i as int]] + positionals_from(opts, s, i as int + 1)));
                }
                i += 1;
            }
        }
        proof {
            assert(positionals_from(opts, s, argc as int) == Seq::<Seq<char>>::empty());
            assert(self.arg_values.deep_view() + Seq::<Seq<char>>::empty()
                =~= self.arg_values.deep_view());
        }
        help_found
    }

    fn parse_option(&mut self, option: &OptParseItem) {
        let ghost entries0 = self.values@;
        let v = resolve_one(&self.args, option);
        let k = option.option.clone();
        self.values.push((k, v));
        proof {
            assert(self.values@.drop_last() =~= entries0);
        }
    }

    fn print_help(&self) -> (lines: Vec<String>) {
        let ghost opts = self.options.deep_view();
        let ghost desc = self.description@;
        let n = self.options.len();

        // Column widths: the widest short form and the widest long form.
        let mut ws: usize = 0;
        let mut wf: usize = 0;
        let mut j: usize = 0;
        while j < n
            invariant
                j <= n,
                n == self.options.len(),
                opts == self.options.deep_view(),
                ws as int == max_short_len(opts.take(j as int)),
                wf as int == max_full_len(opts.take(j as int)),
            decreases n - j,
        {
            proof {
                assert(opts.take(j as int + 1).drop_last() =~= opts.take(j as int));
                assert(opts.take(j as int + 1).last() == opts[j as int]);
                assert(opts[j as int] == self.options@[j as int]@);
            }
            let l = self.options[j].option.as_str().unicode_len();
            if l > ws {
                ws = l;
            }
            let lf = self.options[j].full_option.as_str().unicode_len();
            if lf > wf {
                wf = lf;
            }
            j += 1;
        }
        proof {
            assert(opts.take(n as int) =~= opts);
        }

        let mut lines: Vec<String> = Vec::new();
        if !self.description.as_str().is_empty() {
            lines.push(self.description.clone());
        }
        let ghost head = lines.deep_view();
        proof {
            if desc.len() == 0 {
                assert(head =~= Seq::<Seq<char>>::empty());
            } else {
                assert(head =~= seq![desc]);
            }
        }
        let mut j: usize = 0;
        while j < n
            invariant
                j <= n,
                n == self.options.len(),
                opts == self.options.deep_view(),
                ws as int == max_short_len(opts),
                wf as int == max_full_len(opts),
                lines.deep_view() == head + Seq::new(
                    j as nat,
                    |i: int| help_line(opts[i], max_short_len(opts), max_full_len(opts)),
                ),
            decreases n - j,
        {
            proof {
                assert(opts[j as int] == self.options@[j as int]@);
            }
            let ghost lines0 = lines.deep_view();
            let line = render_line(&self.options[j], ws, wf);
            lines.push(line);
            proof {
                assert(lines.deep_view() =~= lines0.push(help_line(opts[j as int], ws as int, wf as int)));
                assert(lines0.push(help_line(opts[j as int], ws as int, wf as int)) =~= head
                    + Seq::new(
                    j as nat + 1,
                    |i: int| help_line(opts[i], max_short_len(opts), max_full_len(opts)),
                ));
            }
            j += 1;
        }
        proof {
            assert(lines.deep_view() =~= help_lines(opts, desc));
        }
        lines
    }

    fn get_value(&self, option: &str) -> (r: String) {
        let n = self.values.len();
        let mut j: usize = n;
        while j > 0
            invariant
                j <= n,
                n == self.values.len(),
                forall|jj: int| j <= jj < n ==> (#[trigger] self.values@[jj]).0@ != option@,
            decreases j,
        {
            j -= 1;
            if str_eq(self.values[j].0.as_str(), option) {
                proof {
                    lemma_kv_lookup_found(self.values@, j as int);
                }
                return self.values[j].1.clone();
            }
        }
        proof {
            lemma_kv_lookup_absent(self.values@, option@);
        }
        String::new()
    }

    fn get_args_count(&self) -> (n: usize) {
        self.arg_values.len()
    }

    fn get_args(&self, index: usize) -> (r: String) {
        if index < self.arg_values.len() {
            proof {
                assert(self.arg_values.deep_view()[index as int] == self.arg_values@[index as int]@);
            }
            self.arg_values[index].clone()
        } else {
            String::new()
        }
    }
}

impl OptParse {
    /// Like [`IOptParse::parse_options`], with a required positional count:
    /// at least `min_args` and, when `max_args` is non-negative, at most
    /// `max_args` positionals. Returns true when the caller should render
    /// the help and stop: a token asked for help while `is_finish_if_help`
    /// was passed, or the positional count is out of bounds.
    pub fn parse_options_with_required_args(
        &mut self,
        is_finish_if_help: bool,
        min_args: i32,
        max_args: i32,
    ) -> (halt: bool)
        ensures
            parse_step(old(self)@, final(self)@),
            halt == ((is_finish_if_help && help_requested(old(self)@.args)) || !count_within(
                final(self)@.positionals.len() as int,
                min_args as int,
                max_args as int,
            )),
    {
        let help_found = self.parse_options(is_finish_if_help);
        let n = self.get_args_count();
        let ok = (min_args <= 0 || n >= (min_args as usize)) && (max_args < 0 || n <= (
        max_args as usize));
        (is_finish_if_help && help_found) || !ok
    }
}

} // verus!
