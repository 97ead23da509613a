//! Field-level constraints and their evaluation against a decoded value.
//!
//! A constraint set is an ordered list of checks, each naming a field of the
//! declared type and a rule. Every check is evaluated on its own: the result
//! lists one message for each check that the value violates, in the order of
//! the checks. Only the value's own fields are looked at; what is nested in
//! them is not.

use crate::datum::{member_models, Datum, DatumModel, MemberModel};
use crate::numeral::{above, below, numeral_above, numeral_below};
use crate::text::{
    append_decimal, append_signed, chars_of, decimal, same_text, signed_decimal, text_of, texts_of,
};
use vstd::prelude::*;

verus! {

/// What a field must satisfy.
#[derive(Debug)]
pub enum Rule {
    /// A text of at least so many bytes.
    MinLength(usize),
    /// A text of at most so many bytes.
    MaxLength(usize),
    /// An integer not below the bound.
    Minimum(i64),
    /// An integer not above the bound.
    Maximum(i64),
    /// A text in which the regular expression finds a match.
    Pattern(String),
    /// A sequence of at least so many elements.
    MinItems(usize),
    /// A text in the shape of an email address.
    Email,
}

/// What a `Rule` holds.
pub enum RuleModel {
    MinLength(usize),
    MaxLength(usize),
    Minimum(i64),
    Maximum(i64),
    Pattern(Seq<char>),
    MinItems(usize),
    Email,
}

impl View for Rule {
    type V = RuleModel;

    open spec fn view(&self) -> RuleModel {
        match self {
            Rule::MinLength(n) => RuleModel::MinLength(*n),
            Rule::MaxLength(n) => RuleModel::MaxLength(*n),
            Rule::Minimum(n) => RuleModel::Minimum(*n),
            Rule::Maximum(n) => RuleModel::Maximum(*n),
            Rule::Pattern(p) => RuleModel::Pattern(p@),
            Rule::MinItems(n) => RuleModel::MinItems(*n),
            Rule::Email => RuleModel::Email,
        }
    }
}

/// The kind of a rule, without its bound or pattern.
#[derive(Clone, Copy, PartialEq, Eq, Structural, Debug)]
pub enum RuleKind {
    MinLength,
    MaxLength,
    Minimum,
    Maximum,
    Pattern,
    MinItems,
    Email,
}

/// The kind of the rule that a declaration names `name`; `None` where the
/// name is that of no rule.
pub open spec fn rule_named(name: Seq<char>) -> Option<RuleKind> {
    if name == "min_length"@ {
        Some(RuleKind::MinLength)
    } else if name == "max_length"@ {
        Some(RuleKind::MaxLength)
    } else if name == "minimum"@ {
        Some(RuleKind::Minimum)
    } else if name == "maximum"@ {
        Some(RuleKind::Maximum)
    } else if name == "pattern"@ {
        Some(RuleKind::Pattern)
    } else if name == "min_items"@ {
        Some(RuleKind::MinItems)
    } else if name == "email"@ {
        Some(RuleKind::Email)
    } else {
        None
    }
}

/// The kind of the rule that a declaration names `name`.
pub fn rule_kind(name: &str) -> (kind: Option<RuleKind>)
    ensures
        kind == rule_named(name@),
{
    if same_text(name, "min_length") {
        Some(RuleKind::MinLength)
    } else if same_text(name, "max_length") {
        Some(RuleKind::MaxLength)
    } else if same_text(name, "minimum") {
        Some(RuleKind::Minimum)
    } else if same_text(name, "maximum") {
        Some(RuleKind::Maximum)
    } else if same_text(name, "pattern") {
        Some(RuleKind::Pattern)
    } else if same_text(name, "min_items") {
        Some(RuleKind::MinItems)
    } else if same_text(name, "email") {
        Some(RuleKind::Email)
    } else {
        None
    }
}

/// One check: a rule for the field of the given name.
#[derive(Debug)]
pub struct Check {
    pub field: String,
    pub rule: Rule,
}

/// What a `Check` holds.
pub struct CheckModel {
    pub field: Seq<char>,
    pub rule: RuleModel,
}

impl View for Check {
    type V = CheckModel;

    open spec fn view(&self) -> CheckModel {
        CheckModel { field: self.field@, rule: self.rule@ }
    }
}

/// The checks declared for one type, in the order of their declaration.
#[derive(Debug)]
pub struct ConstraintSet {
    pub checks: Vec<Check>,
}

impl View for ConstraintSet {
    type V = Seq<CheckModel>;

    open spec fn view(&self) -> Seq<CheckModel> {
        self.checks@.map_values(|c: Check| c@)
    }
}

/// `regex::Regex`, made known to the verifier as a type without parts.
#[verifier::external_type_specification]
#[verifier::external_body]
pub struct ExRegex(regex::Regex);

/// What `regex::Regex::new` gives for a pattern: the compiled expression, or
/// `None` where the pattern does not compile.
pub uninterp spec fn regex_compiled(pattern: Seq<char>) -> Option<regex::Regex>;

/// What `regex::Regex::is_match` gives for a compiled expression and a text:
/// whether the expression finds a match anywhere in the text.
pub uninterp spec fn regex_finds(expression: regex::Regex, text: Seq<char>) -> bool;

/// `regex::Regex::new`: the compiled expression for a pattern, or `None`
/// where the pattern does not compile. What comes back is taken to depend on
/// the pattern alone; nothing more is claimed of it.
#[verifier::external_body]
fn regex_compile(pattern: &str) -> (found: Option<regex::Regex>)
    ensures
        found == regex_compiled(pattern@),
{
    regex::Regex::new(pattern).ok()
}

/// `regex::Regex::is_match`: whether the expression finds a match anywhere in
/// the text. What comes back is taken to depend on the expression and the
/// text alone; nothing more is claimed of it.
#[verifier::external_body]
fn regex_is_match(expression: &regex::Regex, text: &str) -> (found: bool)
    ensures
        found == regex_finds(*expression, text@),
{
    expression.is_match(text)
}

/// What the search of a text with a pattern ends in: `None` where the pattern
/// does not compile, else whether a match was found.
pub open spec fn regex_outcome(pattern: Seq<char>, text: Seq<char>) -> Option<bool> {
    match regex_compiled(pattern) {
        Some(expression) => Some(regex_finds(expression, text)),
        None => None,
    }
}

/// Compiles `pattern` and searches `text` with it.
fn regex_search(pattern: &str, text: &str) -> (outcome: Option<bool>)
    ensures
        outcome == regex_outcome(pattern@, text@),
{
    match regex_compile(pattern) {
        Some(expression) => Some(regex_is_match(&expression, text)),
        None => None,
    }
}

/// The length of a text in bytes of UTF-8, as `str::len` gives it.
pub open spec fn byte_length(text: Seq<char>) -> usize {
    vstd::utf8::encode_utf8(text).len() as usize
}

/// `at` is the position of the only `@` of `text`; it is neither the first
/// nor the last character; and what follows it holds a `.` but neither
/// begins nor ends with one.
pub open spec fn email_split(text: Seq<char>, at: int) -> bool {
    &&& 0 < at < text.len() - 1
    &&& text[at] == '@'
    &&& forall|j: int| 0 <= j < text.len() && j != at ==> text[j] != '@'
    &&& text[at + 1] != '.'
    &&& text[text.len() - 1] != '.'
    &&& exists|k: int| at < k < text.len() && text[k] == '.'
}

/// Whether a text has the shape of an email address.
pub open spec fn email_shape(text: Seq<char>) -> bool {
    exists|at: int| email_split(text, at)
}

/// Whether a text has the shape of an email address.
#[verifier::loop_isolation(false)]
pub fn is_email(text: &str) -> (ok: bool)
    ensures
        ok == email_shape(text@),
{
    let chars = chars_of(text);
    let n = chars.len();
    let mut first: usize = n;
    let mut i: usize = 0;
    while i < n && first == n
        invariant
            n == chars.len(),
            i <= n,
            first == n || (first < i && chars@[first as int] == '@'),
            forall|j: int| 0 <= j < i && j != first ==> chars@[j] != '@',
        decreases n - i,
    {
        if chars[i] == '@' {
            first = i;
        }
        i += 1;
    }
    if first == n {
        return false;
    }
    while i < n
        invariant
            n == chars.len(),
            first < i <= n,
            chars@[first as int] == '@',
            forall|j: int| 0 <= j < i && j != first ==> chars@[j] != '@',
        decreases n - i,
    {
        if chars[i] == '@' {
            return false;
        }
        i += 1;
    }
    if first == 0 || first == n - 1 {
        return false;
    }
    if chars[first + 1] == '.' || chars[n - 1] == '.' {
        return false;
    }
    let mut k: usize = first + 1;
    while k < n
        invariant
            n == chars.len(),
            first < k <= n,
            forall|j: int| first < j < k ==> chars@[j] != '.',
        decreases n - k,
    {
        if chars[k] == '.' {
            assert(email_split(chars@, first as int));
            return true;
        }
        k += 1;
    }
    false
}

/// Whether `value` breaks `rule`. A rule says nothing of a value of a kind
/// that it is not made for. A bound is kept by an integer within it, and by
/// a numeral of a number within it; a text that is no numeral keeps no bound.
pub open spec fn violated(rule: RuleModel, value: DatumModel) -> bool {
    match (rule, value) {
        (RuleModel::Minimum(n), DatumModel::Decimal(numeral)) => below(numeral, n as int) != Some(
            false,
        ),
        (RuleModel::Maximum(n), DatumModel::Decimal(numeral)) => above(numeral, n as int) != Some(
            false,
        ),
        (RuleModel::MinLength(n), DatumModel::Text(s)) => byte_length(s) < n,
        (RuleModel::MaxLength(n), DatumModel::Text(s)) => byte_length(s) > n,
        (RuleModel::Minimum(n), DatumModel::Integer(i)) => i < n,
        (RuleModel::Maximum(n), DatumModel::Integer(i)) => i > n,
        (RuleModel::Pattern(p), DatumModel::Text(s)) => regex_outcome(p, s) != Some(true),
        (RuleModel::MinItems(n), DatumModel::List(items)) => items.len() < n,
        (RuleModel::Email, DatumModel::Text(s)) => !email_shape(s),
        _ => false,
    }
}

/// The message for a field that breaks a rule.
pub open spec fn message(field: Seq<char>, rule: RuleModel) -> Seq<char> {
    match rule {
        RuleModel::MinLength(n) => field + ": must be at least "@ + decimal(n as nat)
            + " characters"@,
        RuleModel::MaxLength(n) => field + ": must be at most "@ + decimal(n as nat)
            + " characters"@,
        RuleModel::Minimum(n) => field + ": must be at least "@ + signed_decimal(n as int),
        RuleModel::Maximum(n) => field + ": must be at most "@ + signed_decimal(n as int),
        RuleModel::Pattern(p) => field + ": must match pattern "@ + p,
        RuleModel::MinItems(n) => field + ": must have at least "@ + decimal(n as nat)
            + " items"@,
        RuleModel::Email => field + ": must be a valid email address"@,
    }
}

/// The fields of an object; a value of another kind has none.
pub open spec fn fields_of(value: DatumModel) -> Seq<MemberModel> {
    match value {
        DatumModel::Object(fields) => fields,
        _ => Seq::empty(),
    }
}

/// The value of the first field named `name`.
pub open spec fn field_value(fields: Seq<MemberModel>, name: Seq<char>) -> Option<DatumModel>
    decreases fields.len(),
{
    if fields.len() == 0 {
        None
    } else if fields[0].name == name {
        Some(fields[0].value)
    } else {
        field_value(fields.drop_first(), name)
    }
}

/// The message that one check gives for `value`, if `value` has the field and
/// the field breaks the rule.
pub open spec fn violation(check: CheckModel, value: DatumModel) -> Option<Seq<char>> {
    match field_value(fields_of(value), check.field) {
        Some(v) => if violated(check.rule, v) {
            Some(message(check.field, check.rule))
        } else {
            None
        },
        None => None,
    }
}

/// The messages of all the checks that `value` violates, in the order of the
/// checks.
pub open spec fn violations(checks: Seq<CheckModel>, value: DatumModel) -> Seq<Seq<char>>
    decreases checks.len(),
{
    if checks.len() == 0 {
        Seq::empty()
    } else {
        let earlier = violations(checks.drop_last(), value);
        match violation(checks.last(), value) {
            Some(m) => earlier.push(m),
            None => earlier,
        }
    }
}

/// How many of the checks `value` violates.
pub open spec fn violated_count(checks: Seq<CheckModel>, value: DatumModel) -> nat
    decreases checks.len(),
{
    if checks.len() == 0 {
        0
    } else {
        violated_count(checks.drop_last(), value) + if violation(checks.last(), value) is Some {
            1nat
        } else {
            0nat
        }
    }
}

/// Evaluation never stops at the first failure: a value that violates `n` of
/// the checks gets exactly `n` messages.
pub proof fn lemma_one_message_per_violation(checks: Seq<CheckModel>, value: DatumModel)
    ensures
        violations(checks, value).len() == violated_count(checks, value),
    decreases checks.len(),
{
    if checks.len() > 0 {
        lemma_one_message_per_violation(checks.drop_last(), value);
    }
}

/// The value of the first field of `value` that is named `name`.
pub fn field<'a>(value: &'a Datum, name: &str) -> (found: Option<&'a Datum>)
    ensures
        match found {
            Some(v) => field_value(fields_of(value@), name@) == Some(v@),
            None => field_value(fields_of(value@), name@) is None,
        },
{
    match value {
        Datum::Object(fields) => {
            let key = String::from_str(name);
            let ghost all = fields_of(value@);
            assert(all.skip(0) =~= all);
            let mut i: usize = 0;
            while i < fields.len()
                invariant
                    i <= fields.len(),
                    key@ == name@,
                    all == fields_of(value@),
                    all == member_models(fields@),
                    field_value(all, name@) == field_value(all.skip(i as int), name@),
                decreases fields.len() - i,
            {
                if fields[i].name == key {
                    return Some(&fields[i].value);
                }
                assert(all.skip(i as int).drop_first() =~= all.skip(i + 1));
                i += 1;
            }
            None
        },
        _ => None,
    }
}

/// The message for a field that breaks a rule.
pub fn message_for(field: &str, rule: &Rule) -> (text: String)
    ensures
        text@ == message(field@, rule@),
{
    let mut text = String::from_str(field);
    match rule {
        Rule::MinLength(n) => {
            text.append(": must be at least ");
            append_decimal(&mut text, *n as u64);
            text.append(" characters");
        },
        Rule::MaxLength(n) => {
            text.append(": must be at most ");
            append_decimal(&mut text, *n as u64);
            text.append(" characters");
        },
        Rule::Minimum(n) => {
            text.append(": must be at least ");
            append_signed(&mut text, *n);
        },
        Rule::Maximum(n) => {
            text.append(": must be at most ");
            append_signed(&mut text, *n);
        },
        Rule::Pattern(p) => {
            text.append(": must match pattern ");
            text.append(p.as_str());
        },
        Rule::MinItems(n) => {
            text.append(": must have at least ");
            append_decimal(&mut text, *n as u64);
            text.append(" items");
        },
        Rule::Email => {
            text.append(": must be a valid email address");
        },
    }
    text
}

/// Whether a search that ended in `outcome` leaves a pattern rule broken: it
/// does unless the pattern compiled and a match was found.
pub fn pattern_broken(outcome: Option<bool>) -> (broken: bool)
    ensures
        broken == (outcome != Some(true)),
{
    match outcome {
        Some(found) => !found,
        None => true,
    }
}

/// Whether a bound is broken, given whether the number lies beyond it:
/// it is, unless the number is known to lie within.
pub fn out_of_bound(beyond: Option<bool>) -> (broken: bool)
    ensures
        broken == (beyond != Some(false)),
{
    match beyond {
        Some(found) => found,
        None => true,
    }
}

/// Whether `value` breaks `rule`.
pub fn breaks(rule: &Rule, value: &Datum) -> (broken: bool)
    ensures
        broken == violated(rule@, value@),
{
    match value {
        Datum::Text(s) => match rule {
            Rule::MinLength(n) => s.as_str().len() < *n,
            Rule::MaxLength(n) => s.as_str().len() > *n,
            Rule::Pattern(p) => pattern_broken(regex_search(p.as_str(), s.as_str())),
            Rule::Email => !is_email(s.as_str()),
            _ => false,
        },
        Datum::Integer(i) => match rule {
            Rule::Minimum(n) => *i < *n,
            Rule::Maximum(n) => *i > *n,
            _ => false,
        },
        Datum::Decimal(numeral) => match rule {
            Rule::Minimum(n) => out_of_bound(numeral_below(numeral.as_str(), *n)),
            Rule::Maximum(n) => out_of_bound(numeral_above(numeral.as_str(), *n)),
            _ => false,
        },
        Datum::List(items) => match rule {
            Rule::MinItems(n) => items.len() < *n,
            _ => false,
        },
        _ => false,
    }
}

/// The message that `check` gives for `value`, if any.
pub fn check_value(check: &Check, value: &Datum) -> (found: Option<String>)
    ensures
        text_of(found) == violation(check@, value@),
{
    match field(value, check.field.as_str()) {
        Some(v) => {
            if breaks(&check.rule, v) {
                Some(message_for(check.field.as_str(), &check.rule))
            } else {
                None
            }
        },
        None => None,
    }
}

/// Evaluates every check of `constraints` against `value`. The result is `Ok`
/// where no check is violated; otherwise it lists the message of each
/// violated check, in the order of the checks.
pub fn validate(value: &Datum, constraints: &ConstraintSet) -> (result: Result<(), Vec<String>>)
    ensures
        match result {
            Ok(_) => violations(constraints@, value@).len() == 0,
            Err(messages) => messages@.len() > 0 && texts_of(messages@)
                == violations(constraints@, value@),
        },
        match result {
            Ok(_) => violated_count(constraints@, value@) == 0,
            Err(messages) => messages@.len() == violated_count(constraints@, value@),
        },
{
    proof {
        lemma_one_message_per_violation(constraints@, value@);
    }
    let mut errors: Vec<String> = Vec::new();
    let mut i: usize = 0;
    while i < constraints.checks.len()
        invariant
            i <= constraints.checks.len(),
            texts_of(errors@) == violations(constraints@.take(i as int), value@),
        decreases constraints.checks.len() - i,
    {
        assert(constraints@.take(i + 1).drop_last() =~= constraints@.take(i as int));
        match check_value(&constraints.checks[i], value) {
            Some(m) => {
                errors.push(m);
            },
            None => {},
        }
        i += 1;
    }
    assert(constraints@.take(i as int) =~= constraints@);
    if errors.len() == 0 {
        Ok(())
    } else {
        Err(errors)
    }
}

} // verus!
