use std::path::Path;
use vstd::prelude::*;

verus! {

// ---------------------------------------------------------------------------
// The outside matcher types, declared so that they can stand in signatures.
// ---------------------------------------------------------------------------
#[verifier::external_type_specification]
#[verifier::external_body]
pub struct ExGitignore(ignore::gitignore::Gitignore);

#[verifier::external_type_specification]
#[verifier::external_body]
pub struct ExGitignoreBuilder(ignore::gitignore::GitignoreBuilder);

// ---------------------------------------------------------------------------
// The rule model. A builder, and the matcher built from it, hold an ordered
// list of rules; each rule is the text of its glob (after a leading '!' has
// been split off) paired with whether it is a negation (a whitelist rule).
// ---------------------------------------------------------------------------
/// What a builder holds: the rules of the lines added so far, in order.
pub uninterp spec fn builder_rules(b: ignore::gitignore::GitignoreBuilder) -> Seq<
    (Seq<char>, bool),
>;

/// What a finished matcher holds.
pub uninterp spec fn matcher_rules(g: ignore::gitignore::Gitignore) -> Seq<(Seq<char>, bool)>;

/// Whether `GitignoreBuilder::add_line` accepts this line.
pub uninterp spec fn line_ok(line: Seq<char>) -> bool;

/// The rules that an accepted line outside the plainly classified forms
/// contributes to the builder (escaped, whitespace-trailed or otherwise
/// unusual lines).
pub uninterp spec fn raw_line_rules(line: Seq<char>) -> Seq<(Seq<char>, bool)>;

/// Whether the glob with this text applies to the path `rel` (relative to the
/// matcher's directory). A directory-only glob (trailing '/') applies only
/// when `is_dir`; anchoring by a leading or inner '/' is part of the text's
/// meaning.
pub uninterp spec fn glob_matches(pattern: Seq<char>, rel: Seq<char>, is_dir: bool) -> bool;

/// Whether `GitignoreBuilder::build` succeeds on a builder holding these rules.
pub uninterp spec fn build_ok(rules: Seq<(Seq<char>, bool)>) -> bool;

/// A line that contributes nothing: empty, or a comment.
pub open spec fn is_blank_or_comment(l: Seq<char>) -> bool {
    l.len() == 0 || l[0] == '#'
}

/// The line ends with a printable, non-space ASCII character, so no trailing
/// whitespace is trimmed away.
pub open spec fn printable_end(l: Seq<char>) -> bool {
    l.len() > 0 && 32 < (l.last() as u32) <= 126
}

/// A line of the form '!' followed by a pattern: exactly one whitelist rule.
pub open spec fn is_plain_negation(l: Seq<char>) -> bool {
    l.len() >= 2 && l[0] == '!' && printable_end(l)
}

/// An unescaped, unnegated pattern line: exactly one ignore rule.
pub open spec fn is_plain_pattern(l: Seq<char>) -> bool {
    l.len() >= 1 && l[0] != '#' && l[0] != '!' && l[0] != '\\' && printable_end(l)
}

/// The rules that an accepted line contributes to the builder: none for a
/// blank or comment line, one whitelist rule for a '!'-prefixed line, one
/// ignore rule for a plain pattern line.
pub open spec fn line_rules(l: Seq<char>) -> Seq<(Seq<char>, bool)> {
    if is_blank_or_comment(l) {
        Seq::empty()
    } else if is_plain_negation(l) {
        seq![(l.skip(1), true)]
    } else if is_plain_pattern(l) {
        seq![(l, false)]
    } else {
        raw_line_rules(l)
    }
}

/// The verdict of a matcher: the path is ignored when the last rule whose
/// glob applies to it is not a negation. With no applicable rule there is no
/// verdict, and the path is not ignored.
pub open spec fn no_match_after(
    rules: Seq<(Seq<char>, bool)>,
    rel: Seq<char>,
    is_dir: bool,
    i: int,
) -> bool {
    forall|j: int| i < j < rules.len() ==> !glob_matches(#[trigger] rules[j].0, rel, is_dir)
}

pub open spec fn verdict_ignores(rules: Seq<(Seq<char>, bool)>, rel: Seq<char>, is_dir: bool) -> bool {
    exists|i: int|
        0 <= i < rules.len() && #[trigger] glob_matches(rules[i].0, rel, is_dir) && !rules[i].1
            && no_match_after(rules, rel, is_dir, i)
}

// ---------------------------------------------------------------------------
// Trusted wrappers around the outside matcher.
// ---------------------------------------------------------------------------
/// Relies on ignore::gitignore::GitignoreBuilder::new: a fresh builder holds
/// no globs. The matcher root is fixed to ".", which turns off root-prefix
/// stripping of queried paths; only a literal leading "./" would still be
/// stripped, and component-joined paths never carry one.
#[verifier::external_body]
pub(crate) fn builder_new() -> (b: ignore::gitignore::GitignoreBuilder)
    ensures
        builder_rules(b) == Seq::<(Seq<char>, bool)>::empty(),
{
    ignore::gitignore::GitignoreBuilder::new(".")
}

/// Relies on ignore::gitignore::GitignoreBuilder::add_line, with no source
/// path: a comment or empty line adds nothing; a leading '!' marks the rest
/// of the line as a whitelist glob; a glob the parser refuses reports an
/// error and leaves the builder unchanged.
#[verifier::external_body]
pub(crate) fn builder_add_line(b: &mut ignore::gitignore::GitignoreBuilder, line: &str) -> (ok: bool)
    ensures
        ok == line_ok(line@),
        ok ==> builder_rules(*final(b)) == builder_rules(*old(b)) + line_rules(line@),
        !ok ==> builder_rules(*final(b)) == builder_rules(*old(b)),
        is_blank_or_comment(line@) ==> ok,
        ok && !is_blank_or_comment(line@) && !is_plain_negation(line@) && !is_plain_pattern(line@)
            ==> builder_rules(*final(b)) == builder_rules(*old(b)) + raw_line_rules(line@),
{
    b.add_line(None, line).is_ok()
}

/// Relies on ignore::gitignore::GitignoreBuilder::build: the finished matcher
/// holds exactly the globs added so far; success depends on those globs alone.
#[verifier::external_body]
pub(crate) fn builder_build(b: &ignore::gitignore::GitignoreBuilder) -> (r: Option<ignore::gitignore::Gitignore>)
    ensures
        (r is Some) == build_ok(builder_rules(*b)),
        r is Some ==> matcher_rules(r->0) == builder_rules(*b),
{
    b.build().ok()
}

/// Relies on ignore::gitignore::Gitignore::matched: the verdict follows the
/// last glob that applies to the queried path, and a whitelist glob there
/// means not ignored; with no applicable glob the path is not ignored.
#[verifier::external_body]
pub(crate) fn matcher_says_ignore(g: &ignore::gitignore::Gitignore, rel: &str, is_dir: bool) -> (r: bool)
    ensures
        r == verdict_ignores(matcher_rules(*g), rel@, is_dir),
        r ==> exists|i: int|
            0 <= i < matcher_rules(*g).len() && #[trigger] glob_matches(
                matcher_rules(*g)[i].0,
                rel@,
                is_dir,
            ),
{
    g.matched(Path::new(rel), is_dir).is_ignore()
}

// ---------------------------------------------------------------------------
// Compilation of one directory's matcher, verified against the model.
// ---------------------------------------------------------------------------
/// The rules a line contributes: none when the glob parser refuses it.
pub open spec fn line_contribution(l: Seq<char>) -> Seq<(Seq<char>, bool)> {
    if line_ok(l) {
        line_rules(l)
    } else {
        Seq::empty()
    }
}

/// The rules of a list of lines fed to the builder in order.
pub open spec fn rules_of_lines(lines: Seq<Seq<char>>) -> Seq<(Seq<char>, bool)>
    decreases lines.len(),
{
    if lines.len() == 0 {
        Seq::empty()
    } else {
        rules_of_lines(lines.drop_last()) + line_contribution(lines.last())
    }
}

/// A pattern turned into a whitelist line.
pub open spec fn negation_line(p: Seq<char>) -> Seq<char> {
    seq!['!'] + p
}

pub open spec fn negation_lines(pats: Seq<Seq<char>>) -> Seq<Seq<char>> {
    pats.map_values(|p: Seq<char>| negation_line(p))
}

/// Everything a compiled matcher holds: the ignore file's lines in file
/// order, then every default pattern as a negation, then every extra pattern
/// as a negation.
pub open spec fn compiled_lines(
    lines: Seq<Seq<char>>,
    defaults: Seq<Seq<char>>,
    extras: Seq<Seq<char>>,
) -> Seq<Seq<char>> {
    lines + negation_lines(defaults) + negation_lines(extras)
}

pub open spec fn compiled_rules(
    lines: Seq<Seq<char>>,
    defaults: Seq<Seq<char>>,
    extras: Seq<Seq<char>>,
) -> Seq<(Seq<char>, bool)> {
    rules_of_lines(compiled_lines(lines, defaults, extras))
}

/// Prefixes a pattern with '!'.
fn negation_of(p: &String) -> (r: String)
    ensures
        r@ == negation_line(p@),
{
    let mut s = String::new();
    s.push('!');
    s.append(p.as_str());
    proof {
        assert(s@ =~= negation_line(p@));
    }
    s
}

/// Compiles one directory's matcher: the ignore file's lines in order, then
/// each default and each extra pattern as a negation. Lines the glob parser
/// refuses are skipped; `None` means the final glob set could not be built
/// and the directory is left without a matcher.
pub fn compile_matcher(lines: &Vec<String>, defaults: &Vec<String>, extras: &Vec<String>) -> (r:
    Option<ignore::gitignore::Gitignore>)
    ensures
        (r is Some) == build_ok(
            compiled_rules(lines.deep_view(), defaults.deep_view(), extras.deep_view()),
        ),
        r is Some ==> matcher_rules(r->0) == compiled_rules(
            lines.deep_view(),
            defaults.deep_view(),
            extras.deep_view(),
        ),
{
    let ghost all = compiled_lines(lines.deep_view(), defaults.deep_view(), extras.deep_view());
    let mut b = builder_new();
    let mut i: usize = 0;
    proof {
        assert(rules_of_lines(all.take(0)) =~= Seq::<(Seq<char>, bool)>::empty());
    }
    while i < lines.len()
        invariant
            0 <= i <= lines.len(),
            all == compiled_lines(lines.deep_view(), defaults.deep_view(), extras.deep_view()),
            builder_rules(b) == rules_of_lines(all.take(i as int)),
        decreases lines.len() - i,
    {
        proof {
            assert(all.take(i + 1 as int).drop_last() =~= all.take(i as int));
            assert(all.take(i + 1 as int).last() == lines.deep_view()[i as int]);
        }
        builder_add_line(&mut b, lines[i].as_str());
        i = i + 1;
    }
    let mut j: usize = 0;
    while j < defaults.len()
        invariant
            0 <= j <= defaults.len(),
            all == compiled_lines(lines.deep_view(), defaults.deep_view(), extras.deep_view()),
            builder_rules(b) == rules_of_lines(all.take(lines.deep_view().len() + j)),
        decreases defaults.len() - j,
    {
        let ghost k = lines.deep_view().len() + j;
        proof {
            assert(all.take(k + 1).drop_last() =~= all.take(k));
            assert(all.take(k + 1).last() == negation_line(defaults.deep_view()[j as int]));
        }
        let neg = negation_of(&defaults[j]);
        builder_add_line(&mut b, neg.as_str());
        j = j + 1;
    }
    let mut m: usize = 0;
    while m < extras.len()
        invariant
            0 <= m <= extras.len(),
            all == compiled_lines(lines.deep_view(), defaults.deep_view(), extras.deep_view()),
            builder_rules(b) == rules_of_lines(
                all.take(lines.deep_view().len() + defaults.deep_view().len() + m),
            ),
        decreases extras.len() - m,
    {
        let ghost k = lines.deep_view().len() + defaults.deep_view().len() + m;
        proof {
            assert(all.take(k + 1).drop_last() =~= all.take(k));
            assert(all.take(k + 1).last() == negation_line(extras.deep_view()[m as int]));
        }
        let neg = negation_of(&extras[m]);
        builder_add_line(&mut b, neg.as_str());
        m = m + 1;
    }
    proof {
        assert(all.take(all.len() as int) =~= all);
    }
    builder_build(&b)
}

// ---------------------------------------------------------------------------
// The protection guarantee: injected negations always win.
// ---------------------------------------------------------------------------
/// A pattern that keeps its meaning when written after a '!': nonempty and
/// ending in a printable, non-space ASCII character. Every catalog entry is
/// of this form.
pub open spec fn tame_pattern(p: Seq<char>) -> bool {
    p.len() >= 1 && 32 < (p.last() as u32) <= 126
}

pub open spec fn all_tame(pats: Seq<Seq<char>>) -> bool {
    forall|i: int| 0 <= i < pats.len() ==> tame_pattern(#[trigger] pats[i])
}

proof fn lemma_negation_line_plain(p: Seq<char>)
    requires
        tame_pattern(p),
    ensures
        is_plain_negation(negation_line(p)),
        negation_line(p).skip(1) == p,
{
    assert(negation_line(p).skip(1) =~= p);
    assert(negation_line(p).last() == p.last());
}

/// Splitting a line list splits its rules.
proof fn lemma_rules_of_lines_add(a: Seq<Seq<char>>, b: Seq<Seq<char>>)
    ensures
        rules_of_lines(a + b) == rules_of_lines(a) + rules_of_lines(b),
    decreases b.len(),
{
    if b.len() == 0 {
        assert(a + b =~= a);
        assert(rules_of_lines(a) + rules_of_lines(b) =~= rules_of_lines(a));
    } else {
        lemma_rules_of_lines_add(a, b.drop_last());
        assert((a + b).drop_last() =~= a + b.drop_last());
        assert((a + b).last() == b.last());
        assert(rules_of_lines(a) + (rules_of_lines(b.drop_last()) + line_contribution(b.last()))
            =~= (rules_of_lines(a) + rules_of_lines(b.drop_last())) + line_contribution(b.last()));
    }
}

/// Every rule born from a list of tame negation lines is a negation.
proof fn lemma_negation_rules_all_negated(pats: Seq<Seq<char>>)
    requires
        all_tame(pats),
    ensures
        forall|k: int|
            0 <= k < rules_of_lines(negation_lines(pats)).len() ==> (#[trigger] rules_of_lines(
                negation_lines(pats),
            )[k]).1,
    decreases pats.len(),
{
    if pats.len() > 0 {
        let pre = pats.drop_last();
        assert(all_tame(pre));
        lemma_negation_rules_all_negated(pre);
        assert(negation_lines(pre) =~= negation_lines(pats).drop_last());
        let l = negation_line(pats.last());
        assert(negation_lines(pats).last() == l);
        lemma_negation_line_plain(pats.last());
        assert(rules_of_lines(negation_lines(pats)) == rules_of_lines(negation_lines(pre))
            + line_contribution(l));
    }
}

/// A tame pattern whose negation line the parser accepts yields its
/// whitelist rule among the rules of the negation lines.
proof fn lemma_negation_rule_present(pats: Seq<Seq<char>>, j: int)
    requires
        0 <= j < pats.len(),
        tame_pattern(pats[j]),
        line_ok(negation_line(pats[j])),
    ensures
        rules_of_lines(negation_lines(pats)).contains((pats[j], true)),
    decreases pats.len(),
{
    let whole = rules_of_lines(negation_lines(pats));
    let pre = pats.drop_last();
    assert(negation_lines(pre) =~= negation_lines(pats).drop_last());
    let l = negation_line(pats.last());
    assert(negation_lines(pats).last() == l);
    assert(whole == rules_of_lines(negation_lines(pre)) + line_contribution(l));
    if j == pats.len() - 1 {
        lemma_negation_line_plain(pats[j]);
        assert(line_contribution(l) == seq![(pats[j], true)]);
        assert(whole[whole.len() - 1] == (pats[j], true));
    } else {
        lemma_negation_rule_present(pre, j);
        let m = choose|m: int|
            0 <= m < rules_of_lines(negation_lines(pre)).len() && rules_of_lines(
                negation_lines(pre),
            )[m] == (pats[j], true);
        assert(whole[m] == (pats[j], true));
    }
}

/// The protection guarantee for one compiled matcher: a pattern injected as
/// a negation wins over every rule of the ignore file itself, so a path its
/// glob applies to is not ignored. It only takes the glob parser accepting
/// the negation line, and every injected pattern being tame.
pub proof fn lemma_matcher_protection(
    lines: Seq<Seq<char>>,
    defaults: Seq<Seq<char>>,
    extras: Seq<Seq<char>>,
    p: Seq<char>,
    rel: Seq<char>,
    is_dir: bool,
)
    requires
        all_tame(defaults),
        all_tame(extras),
        defaults.contains(p) || extras.contains(p),
        line_ok(negation_line(p)),
        glob_matches(p, rel, is_dir),
    ensures
        !verdict_ignores(compiled_rules(lines, defaults, extras), rel, is_dir),
{
    let pats = defaults + extras;
    assert(all_tame(pats));
    assert(negation_lines(pats) =~= negation_lines(defaults) + negation_lines(extras));
    assert(compiled_lines(lines, defaults, extras) =~= lines + negation_lines(pats));
    lemma_rules_of_lines_add(lines, negation_lines(pats));
    let a = rules_of_lines(lines);
    let b = rules_of_lines(negation_lines(pats));
    let r = compiled_rules(lines, defaults, extras);
    assert(r == a + b);
    lemma_negation_rules_all_negated(pats);
    let j = if defaults.contains(p) {
        choose|j: int| 0 <= j < defaults.len() && defaults[j] == p
    } else {
        let j0 = choose|j0: int| 0 <= j0 < extras.len() && extras[j0] == p;
        defaults.len() + j0
    };
    assert(0 <= j < pats.len() && pats[j] == p);
    lemma_negation_rule_present(pats, j);
    let m0 = choose|m0: int| 0 <= m0 < b.len() && b[m0] == (p, true);
    let m = a.len() + m0;
    assert(r[m] == (p, true));
    if verdict_ignores(r, rel, is_dir) {
        let i = choose|i: int|
            0 <= i < r.len() && #[trigger] glob_matches(r[i].0, rel, is_dir) && !r[i].1
                && no_match_after(r, rel, is_dir, i);
        if i >= a.len() {
            assert(b[i - a.len()].1);
            assert(false);
        } else {
            assert(i < m);
            assert(glob_matches(r[m].0, rel, is_dir));
            assert(!glob_matches(r[m].0, rel, is_dir));
            assert(false);
        }
    }
}

// ---------------------------------------------------------------------------
// The matcher registry: one compiled matcher per directory that has an
// ignore rule file, keyed by the directory's component path.
// ---------------------------------------------------------------------------
/// A matcher bound to the directory it was compiled for.
pub struct CompiledMatcher {
    pub base: Vec<String>,
    pub inner: ignore::gitignore::Gitignore,
}

/// What a compiled matcher means: its base path and its rules.
pub struct MatcherModel {
    pub base: Seq<Seq<char>>,
    pub rules: Seq<(Seq<char>, bool)>,
}

impl View for CompiledMatcher {
    type V = MatcherModel;

    open spec fn view(&self) -> MatcherModel {
        MatcherModel { base: self.base.deep_view(), rules: matcher_rules(self.inner) }
    }
}

pub struct MatcherRegistry {
    pub entries: Vec<CompiledMatcher>,
}

pub open spec fn models_of(s: Seq<CompiledMatcher>) -> Seq<MatcherModel> {
    s.map_values(|m: CompiledMatcher| m@)
}

impl View for MatcherRegistry {
    type V = Seq<MatcherModel>;

    open spec fn view(&self) -> Seq<MatcherModel> {
        models_of(self.entries@)
    }
}

impl MatcherRegistry {
    pub fn len(&self) -> (r: usize)
        ensures
            r == self@.len(),
    {
        self.entries.len()
    }
}

/// The registry that gathering builds from a tree: walking depth first, each
/// directory with an ignore rule file contributes its compiled matcher —
/// unless the glob set cannot be built, in which case the directory is left
/// out and resolves through its ancestors only.
pub open spec fn spec_gather_node(
    n: crate::tree::Node,
    base: Seq<Seq<char>>,
    defaults: Seq<Seq<char>>,
    extras: Seq<Seq<char>>,
) -> Seq<MatcherModel>
    decreases n,
{
    match n {
        crate::tree::Node::File { .. } => Seq::empty(),
        crate::tree::Node::Dir { name, gitignore, entries } => {
            let here = match gitignore {
                Some(lines) => {
                    if build_ok(compiled_rules(lines.deep_view(), defaults, extras)) {
                        seq![
                            MatcherModel {
                                base: base,
                                rules: compiled_rules(lines.deep_view(), defaults, extras),
                            },
                        ]
                    } else {
                        Seq::empty()
                    }
                },
                None => Seq::empty(),
            };
            here + spec_gather_entries(entries@, base, defaults, extras)
        },
    }
}

pub open spec fn spec_gather_entries(
    s: Seq<crate::tree::Node>,
    base: Seq<Seq<char>>,
    defaults: Seq<Seq<char>>,
    extras: Seq<Seq<char>>,
) -> Seq<MatcherModel>
    decreases s,
{
    if s.len() == 0 {
        Seq::empty()
    } else {
        spec_gather_entries(s.drop_last(), base, defaults, extras) + spec_gather_node(
            s.last(),
            base.push(s.last().spec_name()),
            defaults,
            extras,
        )
    }
}

fn gather_rec(
    n: &crate::tree::Node,
    base: &mut Vec<String>,
    defaults: &Vec<String>,
    extras: &Vec<String>,
    reg: &mut Vec<CompiledMatcher>,
)
    ensures
        final(base)@ == old(base)@,
        models_of(final(reg)@) == models_of(old(reg)@) + spec_gather_node(
            *n,
            old(base).deep_view(),
            defaults.deep_view(),
            extras.deep_view(),
        ),
    decreases *n,
{
    let ghost pre = models_of(reg@);
    let ghost here_base = base.deep_view();
    let ghost d = defaults.deep_view();
    let ghost e = extras.deep_view();
    match n {
        crate::tree::Node::File { .. } => {
            proof {
                assert(pre + spec_gather_node(*n, here_base, d, e) =~= pre);
            }
        },
        crate::tree::Node::Dir { gitignore, entries, .. } => {
            if let Some(lines) = gitignore {
                if let Some(g) = compile_matcher(lines, defaults, extras) {
                    let m = CompiledMatcher { base: crate::tree::clone_path(base), inner: g };
                    proof {
                        assert(m@ == MatcherModel {
                            base: here_base,
                            rules: compiled_rules(lines.deep_view(), d, e),
                        });
                    }
                    reg.push(m);
                    proof {
                        assert(models_of(reg@) =~= pre + seq![m@]);
                    }
                }
            }
            let ghost here = models_of(reg@).skip(pre.len() as int);
            proof {
                assert(models_of(reg@) =~= pre + here);
                assert(spec_gather_node(*n, here_base, d, e) == here + spec_gather_entries(
                    entries@,
                    here_base,
                    d,
                    e,
                ));
            }
            let mut i: usize = 0;
            while i < entries.len()
                invariant
                    0 <= i <= entries.len(),
                    n is Dir,
                    *entries == n->entries,
                    base@ == old(base)@,
                    base.deep_view() == here_base,
                    d == defaults.deep_view(),
                    e == extras.deep_view(),
                    models_of(reg@) == pre + here + spec_gather_entries(
                        entries@.take(i as int),
                        here_base,
                        d,
                        e,
                    ),
                    spec_gather_node(*n, here_base, d, e) == here + spec_gather_entries(
                        entries@,
                        here_base,
                        d,
                        e,
                    ),
                decreases entries.len() - i,
            {
                proof {
                    assert(entries@.take(i + 1 as int).drop_last() =~= entries@.take(i as int));
                    assert(entries@.take(i + 1 as int).last() == entries@[i as int]);
                }
                let child = &entries[i];
                base.push(child.name().clone());
                proof {
                    assert(base.deep_view() =~= here_base.push(child.spec_name()));
                    assert(*entries == n->entries);
                    assert(decreases_to!(*n => *entries));
                    vstd::std_specs::vec::axiom_vec_index_decreases(*entries, i as int);
                    assert(decreases_to!(*n => entries@[i as int]));
                }
                gather_rec(child, base, defaults, extras, reg);
                let _ = base.pop();
                proof {
                    assert(base@ =~= old(base)@);
                    assert(base.deep_view() =~= here_base);
                    assert(models_of(reg@) =~= pre + here + spec_gather_entries(
                        entries@.take(i + 1 as int),
                        here_base,
                        d,
                        e,
                    ));
                }
                i = i + 1;
            }
            proof {
                assert(entries@.take(entries.len() as int) =~= entries@);
                assert(models_of(reg@) =~= pre + spec_gather_node(*n, here_base, d, e));
            }
        },
    }
}

/// A matcher whose rules are some ignore file's lines compiled together with
/// the given default and extra patterns as negations.
pub open spec fn matcher_compiled_with(
    m: MatcherModel,
    defaults: Seq<Seq<char>>,
    extras: Seq<Seq<char>>,
) -> bool {
    exists|lines: Seq<Seq<char>>| m.rules == #[trigger] compiled_rules(lines, defaults, extras)
}

/// Every matcher that gathering yields was compiled with the given defaults
/// and extras as negations.
pub proof fn lemma_gather_shape(
    n: crate::tree::Node,
    base: Seq<Seq<char>>,
    defaults: Seq<Seq<char>>,
    extras: Seq<Seq<char>>,
)
    ensures
        forall|i: int|
            0 <= i < spec_gather_node(n, base, defaults, extras).len() ==> matcher_compiled_with(
                #[trigger] spec_gather_node(n, base, defaults, extras)[i],
                defaults,
                extras,
            ),
    decreases n,
{
    let out = spec_gather_node(n, base, defaults, extras);
    match n {
        crate::tree::Node::File { .. } => {
            assert(out =~= Seq::<MatcherModel>::empty());
        },
        crate::tree::Node::Dir { gitignore, entries, .. } => {
            lemma_gather_entries_shape(entries@, base, defaults, extras);
            let rest = spec_gather_entries(entries@, base, defaults, extras);
            assert forall|i: int| 0 <= i < out.len() implies matcher_compiled_with(
                #[trigger] out[i],
                defaults,
                extras,
            ) by {
                if out.len() > rest.len() && i == 0 {
                    let lines = gitignore->0.deep_view();
                    assert(out[0].rules == compiled_rules(lines, defaults, extras));
                } else {
                    assert(out[i] == rest[i - (out.len() - rest.len())]);
                }
            }
        },
    }
}

pub proof fn lemma_gather_entries_shape(
    s: Seq<crate::tree::Node>,
    base: Seq<Seq<char>>,
    defaults: Seq<Seq<char>>,
    extras: Seq<Seq<char>>,
)
    ensures
        forall|i: int|
            0 <= i < spec_gather_entries(s, base, defaults, extras).len()
                ==> matcher_compiled_with(
                #[trigger] spec_gather_entries(s, base, defaults, extras)[i],
                defaults,
                extras,
            ),
    decreases s,
{
    if s.len() > 0 {
        lemma_gather_entries_shape(s.drop_last(), base, defaults, extras);
        lemma_gather_shape(s.last(), base.push(s.last().spec_name()), defaults, extras);
        let prefix = spec_gather_entries(s.drop_last(), base, defaults, extras);
        let tail = spec_gather_node(s.last(), base.push(s.last().spec_name()), defaults, extras);
        let whole = spec_gather_entries(s, base, defaults, extras);
        assert(whole == prefix + tail);
        assert forall|i: int| 0 <= i < whole.len() implies matcher_compiled_with(
            #[trigger] whole[i],
            defaults,
            extras,
        ) by {
            if i < prefix.len() {
                assert(whole[i] == prefix[i]);
            } else {
                assert(whole[i] == tail[i - prefix.len()]);
            }
        }
    }
}

/// Builds the matcher registry for a tree: depth first, every directory with
/// an ignore rule file gets a matcher compiled from its own lines, the
/// default catalog as negations, then the extra patterns as negations.
pub fn gather_gitignores(root: &crate::tree::Node, extras: &Vec<String>) -> (r: MatcherRegistry)
    ensures
        r@ == spec_gather_node(
            *root,
            Seq::empty(),
            crate::patterns::default_catalog(),
            extras.deep_view(),
        ),
{
    let defaults = crate::patterns::default_ignores();
    let mut entries: Vec<CompiledMatcher> = Vec::new();
    let mut base: Vec<String> = Vec::new();
    proof {
        assert(models_of(entries@) =~= Seq::<MatcherModel>::empty());
        assert(base.deep_view() =~= Seq::<Seq<char>>::empty());
    }
    gather_rec(root, &mut base, &defaults, extras, &mut entries);
    MatcherRegistry { entries }
}

} // verus!
