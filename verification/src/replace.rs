//! Replacement rule engine: an ordered, hot-swappable list of compiled
//! pattern/replacement pairs. Installing a rule set compiles each pattern
//! once; applying the set runs every rule's substitution over the previous
//! rule's output, in strict install order.

use vstd::prelude::*;

verus! {

use crate::text::is_blank;
use vstd::string::StringExecFns;

/// Declares `regex::Regex`, the compiled regular expression type, so rules
/// can hold one; its values are opaque here.
#[verifier::external_type_specification]
#[verifier::external_body]
pub struct ExRegex(regex::Regex);

/// One rule as submitted for installation: a regular expression pattern, a
/// replacement string (which may hold backreferences to capture groups), and
/// a string of single-character flags.
pub struct ReplacementRulePayload {
    pub pattern: String,
    pub replacement: String,
    pub flags: String,
}

/// The regular expression flags recognized on a rule. Unrecognized flag
/// characters are ignored.
#[derive(Clone, Copy, PartialEq, Eq, Structural)]
pub struct RegexFlags {
    pub case_insensitive: bool,
    pub multi_line: bool,
    pub dot_matches_new_line: bool,
    pub ignore_whitespace: bool,
    pub swap_greed: bool,
}

/// The flags denoted by a flag string: `i`/`I` for case-insensitive,
/// `m`/`M` for multi-line anchors, `s`/`S` for dot-matches-newline,
/// `x`/`X` for whitespace-insignificant patterns and `U` for greediness
/// inversion; every other character is ignored.
pub open spec fn flags_spec(flags: Seq<char>) -> RegexFlags {
    RegexFlags {
        case_insensitive: flags.contains('i') || flags.contains('I'),
        multi_line: flags.contains('m') || flags.contains('M'),
        dot_matches_new_line: flags.contains('s') || flags.contains('S'),
        ignore_whitespace: flags.contains('x') || flags.contains('X'),
        swap_greed: flags.contains('U'),
    }
}

/// Reads a flag string into the set of recognized flags.
pub fn parse_flags(flags: &str) -> (r: RegexFlags)
    ensures
        r == flags_spec(flags@),
{
    let n = flags.unicode_len();
    let mut r = RegexFlags {
        case_insensitive: false,
        multi_line: false,
        dot_matches_new_line: false,
        ignore_whitespace: false,
        swap_greed: false,
    };
    let mut i: usize = 0;
    while i < n
        invariant
            n == flags@.len(),
            i <= n,
            r.case_insensitive == exists|j: int|
                0 <= j < i && (flags@[j] == 'i' || flags@[j] == 'I'),
            r.multi_line == exists|j: int| 0 <= j < i && (flags@[j] == 'm' || flags@[j] == 'M'),
            r.dot_matches_new_line == exists|j: int|
                0 <= j < i && (flags@[j] == 's' || flags@[j] == 'S'),
            r.ignore_whitespace == exists|j: int|
                0 <= j < i && (flags@[j] == 'x' || flags@[j] == 'X'),
            r.swap_greed == exists|j: int| 0 <= j < i && flags@[j] == 'U',
        decreases n - i,
    {
        let c = flags.get_char(i);
        if c == 'i' || c == 'I' {
            r.case_insensitive = true;
        } else if c == 'm' || c == 'M' {
            r.multi_line = true;
        } else if c == 's' || c == 'S' {
            r.dot_matches_new_line = true;
        } else if c == 'x' || c == 'X' {
            r.ignore_whitespace = true;
        } else if c == 'U' {
            r.swap_greed = true;
        }
        i += 1;
    }
    proof {
        assert(flags_spec(flags@) == RegexFlags {
            case_insensitive: exists|j: int|
                0 <= j < flags@.len() && (flags@[j] == 'i' || flags@[j] == 'I'),
            multi_line: exists|j: int|
                0 <= j < flags@.len() && (flags@[j] == 'm' || flags@[j] == 'M'),
            dot_matches_new_line: exists|j: int|
                0 <= j < flags@.len() && (flags@[j] == 's' || flags@[j] == 'S'),
            ignore_whitespace: exists|j: int|
                0 <= j < flags@.len() && (flags@[j] == 'x' || flags@[j] == 'X'),
            swap_greed: exists|j: int| 0 <= j < flags@.len() && flags@[j] == 'U',
        }) by {
            assert(forall|c: char| flags@.contains(c) <==> exists|j: int|
                0 <= j < flags@.len() && flags@[j] == c);
        }
    }
    r
}

/// The mathematical identity of a compiled rule: the pattern it was compiled
/// from, the flags in force, and the replacement string.
pub struct RuleModel {
    pub pattern: Seq<char>,
    pub flags: RegexFlags,
    pub replacement: Seq<char>,
}

/// Whether `pattern` compiles as a regular expression under `flags` (within
/// the regex crate's default size limit). The full definition is the regex
/// crate's grammar; it is a function of these arguments alone.
pub uninterp spec fn regex_compiles(pattern: Seq<char>, flags: RegexFlags) -> bool;

/// The result of running one rule's substitution over a text: every match of
/// the regular expression compiled from `pattern` under `flags` is replaced
/// by `replacement` with its backreferences expanded. The full definition is
/// the regex crate's; it is a function of these arguments alone.
pub uninterp spec fn substituted(
    pattern: Seq<char>,
    flags: RegexFlags,
    replacement: Seq<char>,
    text: Seq<char>,
) -> Seq<char>;

/// A compiled pattern/replacement pair. The compiled regular expression is
/// kept together with the exact pattern, flags and replacement it was built
/// from; only `compile_rule` constructs values of this type, which is what
/// ties the opaque regex to its model.
pub struct TextReplacementRule {
    regex: regex::Regex,
    pattern: String,
    flags: RegexFlags,
    replacement: String,
}

impl TextReplacementRule {
    /// The pattern, flags and replacement this rule was compiled from.
    pub closed spec fn model(&self) -> RuleModel {
        RuleModel { pattern: self.pattern@, flags: self.flags, replacement: self.replacement@ }
    }
}

/// Relies on `regex::RegexBuilder`: `build` returns `Ok` exactly when the
/// pattern is a valid regular expression under the flags set on the builder
/// (within the default size limit) — the success named `regex_compiles` —
/// and the compiled regex is determined by the pattern and those flags. On
/// error, the error's display text is returned.
#[verifier::external_body]
fn compile_rule(pattern: String, flags: RegexFlags, replacement: String) -> (r: Result<
    TextReplacementRule,
    String,
>)
    ensures
        r is Ok <==> regex_compiles(pattern@, flags),
        r matches Ok(rule) ==> rule.model() == (RuleModel {
            pattern: pattern@,
            flags,
            replacement: replacement@,
        }),
{
    let built = regex::RegexBuilder::new(&pattern)
        .case_insensitive(flags.case_insensitive)
        .multi_line(flags.multi_line)
        .dot_matches_new_line(flags.dot_matches_new_line)
        .ignore_whitespace(flags.ignore_whitespace)
        .swap_greed(flags.swap_greed)
        .build();
    match built {
        Ok(regex) => Ok(TextReplacementRule { regex, pattern, flags, replacement }),
        Err(err) => Err(err.to_string()),
    }
}

/// Relies on `regex::Regex::replace_all`: replaces every non-overlapping
/// match of the rule's regex in `text` by the rule's replacement string with
/// backreferences expanded. The rule's regex is compiled from its model's
/// pattern and flags alone (see `compile_rule`), so the result is the
/// function `substituted` of the rule's model and the input text.
#[verifier::external_body]
fn rule_apply(rule: &TextReplacementRule, text: &str) -> (r: String)
    ensures
        r@ == substituted(
            rule.model().pattern,
            rule.model().flags,
            rule.model().replacement,
            text@,
        ),
{
    rule.regex.replace_all(text, rule.replacement.as_str()).into_owned()
}

/// The models of a compiled rule list, in order.
pub open spec fn rule_models(rules: Seq<TextReplacementRule>) -> Seq<RuleModel> {
    rules.map_values(|r: TextReplacementRule| r.model())
}

/// The compiled form a payload would install as: its pattern, the flags its
/// flag string denotes, and its replacement.
pub open spec fn payload_model(p: ReplacementRulePayload) -> RuleModel {
    RuleModel { pattern: p.pattern@, flags: flags_spec(p.flags@), replacement: p.replacement@ }
}

/// Whether a submitted payload installs: its pattern is not blank and
/// compiles under its flags.
pub open spec fn payload_installs(p: ReplacementRulePayload) -> bool {
    !is_blank(p.pattern@) && regex_compiles(p.pattern@, flags_spec(p.flags@))
}

/// The compiled forms of exactly the payloads that install, in submission
/// order.
pub open spec fn compiled_models(rules: Seq<ReplacementRulePayload>) -> Seq<RuleModel>
    decreases rules.len(),
{
    if rules.len() == 0 {
        Seq::empty()
    } else if payload_installs(rules.last()) {
        compiled_models(rules.drop_last()).push(payload_model(rules.last()))
    } else {
        compiled_models(rules.drop_last())
    }
}

/// The number of payloads whose pattern is not blank yet fails to compile —
/// one diagnostic each.
pub open spec fn count_failed(rules: Seq<ReplacementRulePayload>) -> int
    decreases rules.len(),
{
    if rules.len() == 0 {
        0
    } else {
        count_failed(rules.drop_last()) + if !is_blank(rules.last().pattern@)
            && !regex_compiles(rules.last().pattern@, flags_spec(rules.last().flags@)) {
            1int
        } else {
            0int
        }
    }
}

proof fn lemma_compilation_step(rules: Seq<ReplacementRulePayload>, i: int)
    requires
        0 <= i < rules.len(),
    ensures
        compiled_models(rules.subrange(0, i + 1)) == if payload_installs(rules[i]) {
            compiled_models(rules.subrange(0, i)).push(payload_model(rules[i]))
        } else {
            compiled_models(rules.subrange(0, i))
        },
        count_failed(rules.subrange(0, i + 1)) == count_failed(rules.subrange(0, i)) + if !is_blank(
            rules[i].pattern@,
        ) && !regex_compiles(rules[i].pattern@, flags_spec(rules[i].flags@)) {
            1int
        } else {
            0int
        },
{
    assert(rules.subrange(0, i + 1).drop_last() =~= rules.subrange(0, i));
    assert(rules.subrange(0, i + 1).last() == rules[i]);
}

/// Compiles a batch of submitted rules. The result holds the compiled form
/// of exactly the payloads whose pattern is non-blank and compiles under its
/// flags, in submission order; a blank pattern is skipped silently; a
/// pattern that fails to compile is skipped with its error text collected as
/// a diagnostic, and the rest of the batch still compiles.
pub fn compile_replacement_rules(rules: Vec<ReplacementRulePayload>) -> (r: (
    Vec<TextReplacementRule>,
    Vec<String>,
))
    ensures
        rule_models(r.0@) == compiled_models(rules@),
        r.1@.len() == count_failed(rules@),
{
    let ghost submitted = rules@;
    let mut compiled: Vec<TextReplacementRule> = Vec::new();
    let mut diagnostics: Vec<String> = Vec::new();
    let mut i: usize = 0;
    let n = rules.len();
    proof {
        assert(submitted.subrange(0, 0) =~= Seq::<ReplacementRulePayload>::empty());
        assert(rule_models(compiled@) =~= compiled_models(submitted.subrange(0, 0)));
    }
    while i < n
        invariant
            n == submitted.len(),
            i <= n,
            rules@ == submitted,
            rule_models(compiled@) == compiled_models(submitted.subrange(0, i as int)),
            diagnostics@.len() == count_failed(submitted.subrange(0, i as int)),
        decreases n - i,
    {
        let rule = &rules[i];
        proof {
            lemma_compilation_step(submitted, i as int);
        }
        if !crate::text::str_is_blank(rule.pattern.as_str()) {
            let flags = parse_flags(rule.flags.as_str());
            match compile_rule(rule.pattern.clone(), flags, rule.replacement.clone()) {
                Ok(c) => {
                    let ghost prev = compiled@;
                    compiled.push(c);
                    proof {
                        assert(compiled@ =~= prev.push(c));
                        assert(rule_models(compiled@) =~= rule_models(prev).push(c.model()));
                        assert(c.model() == payload_model(submitted[i as int]));
                        assert(payload_installs(submitted[i as int]));
                    }
                },
                Err(msg) => {
                    diagnostics.push(msg);
                    proof {
                        assert(!payload_installs(submitted[i as int]));
                    }
                },
            }
        } else {
            proof {
                assert(!payload_installs(submitted[i as int]));
            }
        }
        i += 1;
    }
    proof {
        assert(submitted.subrange(0, n as int) =~= submitted);
    }
    (compiled, diagnostics)
}

/// The left fold of the rules' substitutions over `text`, starting at rule
/// `i`: each rule rewrites the previous rule's output, in order.
pub open spec fn apply_rules_from(rules: Seq<RuleModel>, i: int, text: Seq<char>) -> Seq<char>
    decreases rules.len() - i,
{
    if i < 0 || i >= rules.len() {
        text
    } else {
        apply_rules_from(
            rules,
            i + 1,
            substituted(rules[i].pattern, rules[i].flags, rules[i].replacement, text),
        )
    }
}

/// The result of applying a whole rule set to `text`, first rule first.
pub open spec fn apply_rules_spec(rules: Seq<RuleModel>, text: Seq<char>) -> Seq<char> {
    apply_rules_from(rules, 0, text)
}

/// With no rules installed, applying the rule set returns its input
/// unchanged, whatever the input.
pub proof fn lemma_apply_empty(rules: Seq<RuleModel>, text: Seq<char>)
    requires
        rules.len() == 0,
    ensures
        apply_rules_spec(rules, text) == text,
{
}

proof fn lemma_apply_empty_text_from(rules: Seq<RuleModel>, i: int)
    requires
        forall|k: int|
            0 <= k < rules.len() ==> substituted(
                (#[trigger] rules[k]).pattern,
                rules[k].flags,
                rules[k].replacement,
                Seq::<char>::empty(),
            ) == Seq::<char>::empty(),
        0 <= i <= rules.len(),
    ensures
        apply_rules_from(rules, i, Seq::<char>::empty()) == Seq::<char>::empty(),
    decreases rules.len() - i,
{
    if i < rules.len() {
        lemma_apply_empty_text_from(rules, i + 1);
    }
}

/// Applying the rule set to the empty string yields the empty string, for
/// every rule set whose individual substitutions leave the empty string
/// empty. (A rule can match the empty string — a bare `^`, say — and then
/// rewrite it; such rules are the only exception.)
pub proof fn lemma_apply_empty_text(rules: Seq<RuleModel>)
    requires
        forall|k: int|
            0 <= k < rules.len() ==> substituted(
                (#[trigger] rules[k]).pattern,
                rules[k].flags,
                rules[k].replacement,
                Seq::<char>::empty(),
            ) == Seq::<char>::empty(),
    ensures
        apply_rules_spec(rules, Seq::<char>::empty()) == Seq::<char>::empty(),
{
    lemma_apply_empty_text_from(rules, 0);
}

/// The engine owning the currently installed rule set. The set is replaced
/// atomically as a whole by `set_text_replacements`; partial updates are not
/// supported.
pub struct ReplacementEngine {
    rules: Vec<TextReplacementRule>,
}

impl ReplacementEngine {
    /// The models of the installed rules, in application order.
    pub closed spec fn models(&self) -> Seq<RuleModel> {
        rule_models(self.rules@)
    }

    /// An engine with no rules installed.
    pub fn new() -> (r: ReplacementEngine)
        ensures
            r.models().len() == 0,
    {
        ReplacementEngine { rules: Vec::new() }
    }

    /// Replaces the whole installed rule set: afterwards it holds the
    /// compiled form of exactly the submitted payloads whose pattern is
    /// non-blank and compiles, in submission order, with one diagnostic per
    /// payload that failed to compile. The previous set is discarded, never
    /// merged.
    pub fn set_text_replacements(&mut self, rules: Vec<ReplacementRulePayload>) -> (diagnostics:
        Vec<String>)
        ensures
            final(self).models() == compiled_models(rules@),
            diagnostics@.len() == count_failed(rules@),
    {
        let (compiled, diagnostics) = compile_replacement_rules(rules);
        self.rules = compiled;
        diagnostics
    }

    /// Rewrites `raw` by every installed rule in install order, each rule
    /// seeing the previous rule's output. With no rules installed the input
    /// comes back unchanged.
    pub fn apply_text_replacements(&self, raw: &str) -> (r: String)
        ensures
            r@ == apply_rules_spec(self.models(), raw@),
    {
        let mut output = raw.to_owned();
        let n = self.rules.len();
        let mut i: usize = 0;
        while i < n
            invariant
                n == self.rules@.len(),
                i <= n,
                apply_rules_from(self.models(), i as int, output@) == apply_rules_spec(
                    self.models(),
                    raw@,
                ),
            decreases n - i,
        {
            let next = rule_apply(&self.rules[i], output.as_str());
            proof {
                assert(self.models()[i as int] == self.rules@[i as int].model());
            }
            output = next;
            i += 1;
        }
        output
    }
}

} // verus!
