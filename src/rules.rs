use vstd::prelude::*;
use crate::syntax::{texts, Statement, StatementModel, statement_models};
use crate::violations::{
    all_kinds, message_models, text_eq, violation_models, MessageModel, RuleViolation,
    RuleViolationKind, Span, ViolationMessage, ViolationModel,
};

verus! {

/// The messages every finding of a kind carries, in display order.
pub open spec fn rule_messages(k: RuleViolationKind) -> Seq<MessageModel> {
    match k {
        RuleViolationKind::RequireConcurrentIndexCreation => seq![
            MessageModel::Note("Creating an index blocks writes."@),
            MessageModel::Help("Create the index CONCURRENTLY."@),
        ],
        RuleViolationKind::RenamingColumn => seq![
            MessageModel::Note("Renaming a column may break existing clients."@),
        ],
        RuleViolationKind::RenamingTable => seq![
            MessageModel::Note("Renaming a table may break existing clients."@),
        ],
        RuleViolationKind::ChangingColumnType => seq![
            MessageModel::Note("Requires an ACCESS EXCLUSIVE lock on the table which blocks reads."@),
            MessageModel::Note("Changing the type may break existing clients."@),
        ],
        RuleViolationKind::AddingNotNullableField => seq![
            MessageModel::Note("Adding a NOT NULL field requires exclusive locks and table rewrites."@),
            MessageModel::Help("Make the field nullable."@),
        ],
        RuleViolationKind::AddingFieldWithDefault => seq![
            MessageModel::Note("In Postgres versions <11 adding a field with a DEFAULT requires a table rewrite with an ACCESS EXCLUSIVE lock."@),
            MessageModel::Help("Add the field as nullable, then set a default, backfill, and remove nullabilty."@),
        ],
        RuleViolationKind::DisallowedUniqueConstraint => seq![
            MessageModel::Note("Adding a UNIQUE constraint requires an ACCESS EXCLUSIVE lock which blocks reads."@),
            MessageModel::Help("Create an index CONCURRENTLY and create the constraint using the index."@),
        ],
        RuleViolationKind::ConstraintMissingNotValid => seq![
            MessageModel::Note("Requires a table scan to verify constraint and an ACCESS EXCLUSIVE lock which blocks reads."@),
            MessageModel::Help("Add NOT VALID to the constraint and then VALIDATE the constraint."@),
        ],
        RuleViolationKind::BanDropDatabase => seq![
            MessageModel::Note("Dropping a database may break existing clients."@),
        ],
        RuleViolationKind::PreferTextField => seq![
            MessageModel::Note("Changing the size of a varchar field requires an ACCESS EXCLUSIVE lock."@),
            MessageModel::Help("Use a text field with a check constraint."@),
        ],
        RuleViolationKind::PreferRobustStmts => seq![
            MessageModel::Help("Consider wrapping in a transaction or adding a IF NOT EXISTS clause."@),
        ],
        RuleViolationKind::BanCharField => seq![
            MessageModel::Help("Use text or varchar instead."@),
        ],
    }
}

fn note(t: &str) -> (r: ViolationMessage)
    ensures
        r@ == MessageModel::Note(t@),
{
    ViolationMessage::Note(t.to_owned())
}

fn help(t: &str) -> (r: ViolationMessage)
    ensures
        r@ == MessageModel::Help(t@),
{
    ViolationMessage::Help(t.to_owned())
}

/// Builds the messages of a kind.
pub fn messages_for(k: RuleViolationKind) -> (r: Vec<ViolationMessage>)
    ensures
        message_models(r@) == rule_messages(k),
{
    let r = match k {
        RuleViolationKind::RequireConcurrentIndexCreation => vec![
            note("Creating an index blocks writes."),
            help("Create the index CONCURRENTLY."),
        ],
        RuleViolationKind::RenamingColumn => vec![
            note("Renaming a column may break existing clients."),
        ],
        RuleViolationKind::RenamingTable => vec![
            note("Renaming a table may break existing clients."),
        ],
        RuleViolationKind::ChangingColumnType => vec![
            note("Requires an ACCESS EXCLUSIVE lock on the table which blocks reads."),
            note("Changing the type may break existing clients."),
        ],
        RuleViolationKind::AddingNotNullableField => vec![
            note("Adding a NOT NULL field requires exclusive locks and table rewrites."),
            help("Make the field nullable."),
        ],
        RuleViolationKind::AddingFieldWithDefault => vec![
            note("In Postgres versions <11 adding a field with a DEFAULT requires a table rewrite with an ACCESS EXCLUSIVE lock."),
            help("Add the field as nullable, then set a default, backfill, and remove nullabilty."),
        ],
        RuleViolationKind::DisallowedUniqueConstraint => vec![
            note("Adding a UNIQUE constraint requires an ACCESS EXCLUSIVE lock which blocks reads."),
            help("Create an index CONCURRENTLY and create the constraint using the index."),
        ],
        RuleViolationKind::ConstraintMissingNotValid => vec![
            note("Requires a table scan to verify constraint and an ACCESS EXCLUSIVE lock which blocks reads."),
            help("Add NOT VALID to the constraint and then VALIDATE the constraint."),
        ],
        RuleViolationKind::BanDropDatabase => vec![
            note("Dropping a database may break existing clients."),
        ],
        RuleViolationKind::PreferTextField => vec![
            note("Changing the size of a varchar field requires an ACCESS EXCLUSIVE lock."),
            help("Use a text field with a check constraint."),
        ],
        RuleViolationKind::PreferRobustStmts => vec![
            help("Consider wrapping in a transaction or adding a IF NOT EXISTS clause."),
        ],
        RuleViolationKind::BanCharField => vec![
            help("Use text or varchar instead."),
        ],
    };
    assert(message_models(r@) =~= rule_messages(k));
    r
}

/// Whether a statement holds a node or token of the named kind.
pub open spec fn holds_kind(kinds: Seq<Seq<char>>, name: &str) -> bool {
    kinds.contains(name@)
}

/// Whether a kind is whitespace or a comment.
pub open spec fn is_trivia(kind: Seq<char>) -> bool {
    kind == "WHITESPACE"@ || kind == "COMMENT"@
}

/// Whether the first kind at or after `j` that is not trivia is `VARYING_KW`.
pub open spec fn varying_from(kinds: Seq<Seq<char>>, j: int) -> bool
    decreases kinds.len() - j,
{
    if j < 0 || j >= kinds.len() {
        false
    } else if is_trivia(kinds[j]) {
        varying_from(kinds, j + 1)
    } else {
        kinds[j] == "VARYING_KW"@
    }
}

/// Whether some `CHARACTER` keyword is not followed by `VARYING`: a
/// fixed-width character type.
pub open spec fn fixed_character(kinds: Seq<Seq<char>>) -> bool {
    exists|i: int| 0 <= i < kinds.len() && kinds[i] == "CHARACTER_KW"@ && !#[trigger] varying_from(kinds, i + 1)
}

/// Whether the rule of kind `k` flags a statement with these node and token
/// kinds.
pub open spec fn fires(k: RuleViolationKind, kinds: Seq<Seq<char>>) -> bool {
    match k {
        RuleViolationKind::RequireConcurrentIndexCreation =>
            holds_kind(kinds, "CREATE_INDEX") && !holds_kind(kinds, "CONCURRENTLY_KW"),
        RuleViolationKind::ConstraintMissingNotValid =>
            holds_kind(kinds, "ADD_CONSTRAINT") && !holds_kind(kinds, "NOT_VALID"),
        RuleViolationKind::AddingFieldWithDefault =>
            holds_kind(kinds, "ADD_COLUMN") && holds_kind(kinds, "DEFAULT_CONSTRAINT"),
        RuleViolationKind::AddingNotNullableField =>
            holds_kind(kinds, "ADD_COLUMN") && holds_kind(kinds, "NOT_NULL_CONSTRAINT"),
        RuleViolationKind::ChangingColumnType => holds_kind(kinds, "SET_TYPE"),
        RuleViolationKind::DisallowedUniqueConstraint =>
            holds_kind(kinds, "ADD_CONSTRAINT") && holds_kind(kinds, "UNIQUE_CONSTRAINT")
                && !holds_kind(kinds, "USING_INDEX"),
        RuleViolationKind::RenamingColumn => holds_kind(kinds, "RENAME_COLUMN"),
        RuleViolationKind::RenamingTable => holds_kind(kinds, "ALTER_TABLE") && holds_kind(kinds, "RENAME_TO"),
        RuleViolationKind::PreferTextField => holds_kind(kinds, "VARCHAR_KW") || holds_kind(kinds, "VARYING_KW"),
        RuleViolationKind::PreferRobustStmts =>
            ((holds_kind(kinds, "CREATE_TABLE") || holds_kind(kinds, "CREATE_INDEX") || holds_kind(kinds, "ADD_COLUMN"))
                && !holds_kind(kinds, "IF_NOT_EXISTS"))
            || ((holds_kind(kinds, "DROP_TABLE") || holds_kind(kinds, "DROP_INDEX")) && !holds_kind(kinds, "IF_EXISTS")),
        RuleViolationKind::BanCharField =>
            holds_kind(kinds, "CHAR_KW") || holds_kind(kinds, "NCHAR_KW") || fixed_character(kinds),
        RuleViolationKind::BanDropDatabase => holds_kind(kinds, "DROP_DATABASE"),
    }
}

/// Whether `name` is among the kinds.
pub fn has_kind(kinds: &Vec<String>, name: &str) -> (r: bool)
    ensures
        r == holds_kind(texts(kinds@), name),
{
    let mut i: usize = 0;
    while i < kinds.len()
        invariant
            i <= kinds@.len(),
            forall|j: int| 0 <= j < i ==> kinds@[j]@ != name@,
        decreases kinds@.len() - i,
    {
        if text_eq(kinds[i].as_str(), name) {
            assert(texts(kinds@)[i as int] == name@);
            return true;
        }
        i = i + 1;
    }
    assert(!texts(kinds@).contains(name@));
    false
}

/// Whether the first kind at or after `j` that is not trivia is `VARYING_KW`.
fn has_varying_from(kinds: &Vec<String>, j: usize) -> (r: bool)
    requires
        j <= kinds@.len(),
    ensures
        r == varying_from(texts(kinds@), j as int),
{
    let ghost ks = texts(kinds@);
    let mut p: usize = j;
    while p < kinds.len() && (text_eq(kinds[p].as_str(), "WHITESPACE") || text_eq(kinds[p].as_str(), "COMMENT"))
        invariant
            j <= p <= kinds@.len(),
            ks == texts(kinds@),
            varying_from(ks, j as int) == varying_from(ks, p as int),
        decreases kinds@.len() - p,
    {
        assert(ks[p as int] == kinds@[p as int]@);
        p = p + 1;
    }
    if p < kinds.len() {
        assert(ks[p as int] == kinds@[p as int]@);
        text_eq(kinds[p].as_str(), "VARYING_KW")
    } else {
        false
    }
}

/// Whether some `CHARACTER` keyword is not followed by `VARYING`.
fn has_fixed_character(kinds: &Vec<String>) -> (r: bool)
    ensures
        r == fixed_character(texts(kinds@)),
{
    let ghost ks = texts(kinds@);
    let mut i: usize = 0;
    while i < kinds.len()
        invariant
            i <= kinds@.len(),
            ks == texts(kinds@),
            forall|q: int| 0 <= q < i ==> !(ks[q] == "CHARACTER_KW"@ && !#[trigger] varying_from(ks, q + 1)),
        decreases kinds@.len() - i,
    {
        assert(ks[i as int] == kinds@[i as int]@);
        if text_eq(kinds[i].as_str(), "CHARACTER_KW") && !has_varying_from(kinds, i + 1) {
            return true;
        }
        i = i + 1;
    }
    false
}

/// Whether the rule of kind `k` flags the statement.
pub fn rule_fires(k: RuleViolationKind, stmt: &Statement) -> (r: bool)
    ensures
        r == fires(k, stmt@.kinds),
{
    let kinds = &stmt.kinds;
    match k {
        RuleViolationKind::RequireConcurrentIndexCreation =>
            has_kind(kinds, "CREATE_INDEX") && !has_kind(kinds, "CONCURRENTLY_KW"),
        RuleViolationKind::ConstraintMissingNotValid =>
            has_kind(kinds, "ADD_CONSTRAINT") && !has_kind(kinds, "NOT_VALID"),
        RuleViolationKind::AddingFieldWithDefault =>
            has_kind(kinds, "ADD_COLUMN") && has_kind(kinds, "DEFAULT_CONSTRAINT"),
        RuleViolationKind::AddingNotNullableField =>
            has_kind(kinds, "ADD_COLUMN") && has_kind(kinds, "NOT_NULL_CONSTRAINT"),
        RuleViolationKind::ChangingColumnType => has_kind(kinds, "SET_TYPE"),
        RuleViolationKind::DisallowedUniqueConstraint =>
            has_kind(kinds, "ADD_CONSTRAINT") && has_kind(kinds, "UNIQUE_CONSTRAINT")
                && !has_kind(kinds, "USING_INDEX"),
        RuleViolationKind::RenamingColumn => has_kind(kinds, "RENAME_COLUMN"),
        RuleViolationKind::RenamingTable =>
            has_kind(kinds, "ALTER_TABLE") && has_kind(kinds, "RENAME_TO"),
        RuleViolationKind::PreferTextField =>
            has_kind(kinds, "VARCHAR_KW") || has_kind(kinds, "VARYING_KW"),
        RuleViolationKind::PreferRobustStmts => {
            let creates = has_kind(kinds, "CREATE_TABLE") || has_kind(kinds, "CREATE_INDEX")
                || has_kind(kinds, "ADD_COLUMN");
            let drops = has_kind(kinds, "DROP_TABLE") || has_kind(kinds, "DROP_INDEX");
            (creates && !has_kind(kinds, "IF_NOT_EXISTS")) || (drops && !has_kind(kinds, "IF_EXISTS"))
        },
        RuleViolationKind::BanCharField =>
            has_kind(kinds, "CHAR_KW") || has_kind(kinds, "NCHAR_KW") || has_fixed_character(kinds),
        RuleViolationKind::BanDropDatabase => has_kind(kinds, "DROP_DATABASE"),
    }
}

/// The finding of kind `k` on a statement.
pub open spec fn violation_at(k: RuleViolationKind, s: StatementModel) -> ViolationModel {
    ViolationModel { kind: k, span: Span { start: s.start, end: s.end }, messages: rule_messages(k) }
}

/// What the rule of kind `k` reports on a statement sequence: one finding per
/// statement it flags, in statement order.
pub open spec fn analysis(k: RuleViolationKind, stmts: Seq<StatementModel>) -> Seq<ViolationModel>
    decreases stmts.len(),
{
    if stmts.len() == 0 {
        Seq::empty()
    } else {
        let rest = analysis(k, stmts.drop_last());
        if fires(k, stmts.last().kinds) {
            rest.push(violation_at(k, stmts.last()))
        } else {
            rest
        }
    }
}

/// An entry of the rule table: a rule kind and the messages its findings
/// carry.
pub struct SquawkRule {
    pub name: RuleViolationKind,
    pub messages: Vec<ViolationMessage>,
}

impl SquawkRule {
    /// The entry's messages are those of its kind.
    pub open spec fn wf(&self) -> bool {
        message_models(self.messages@) == rule_messages(self.name)
    }

    /// Runs this rule over the statements.
    pub fn check(&self, stmts: &Vec<Statement>) -> (r: Vec<RuleViolation>)
        ensures
            violation_models(r@) == analysis(self.name, statement_models(stmts@)),
    {
        let k = self.name;
        let mut out: Vec<RuleViolation> = Vec::new();
        let mut i: usize = 0;
        while i < stmts.len()
            invariant
                i <= stmts@.len(),
                k == self.name,
                violation_models(out@) == analysis(k, statement_models(stmts@.take(i as int))),
            decreases stmts@.len() - i,
        {
            proof {
                let m = statement_models(stmts@.take(i + 1));
                assert(m.drop_last() =~= statement_models(stmts@.take(i as int)));
                assert(m.last() == stmts@[i as int]@);
            }
            let s = &stmts[i];
            if rule_fires(k, s) {
                let ghost prev = out@;
                let v = RuleViolation { kind: k, span: Span { start: s.start, end: s.end }, messages: messages_for(k) };
                out.push(v);
                proof { assert(violation_models(out@) =~= violation_models(prev).push(v@)); }
            }
            i = i + 1;
        }
        proof { assert(stmts@.take(stmts@.len() as int) =~= stmts@); }
        out
    }
}

fn entry(k: RuleViolationKind) -> (r: SquawkRule)
    ensures
        r.name == k,
        r.wf(),
{
    SquawkRule { name: k, messages: messages_for(k) }
}

/// The rule table, one entry per kind, in registration order.
pub fn rules() -> (r: Vec<SquawkRule>)
    ensures
        r@.len() == all_kinds().len(),
        forall|i: int| 0 <= i < r@.len() ==> (#[trigger] r@[i]).name == all_kinds()[i] && r@[i].wf(),
{
    let kinds = RuleViolationKind::all();
    let mut r: Vec<SquawkRule> = Vec::new();
    let mut i: usize = 0;
    while i < kinds.len()
        invariant
            i <= kinds@.len(),
            kinds@ == all_kinds(),
            r@.len() == i,
            forall|j: int| 0 <= j < i ==> (#[trigger] r@[j]).name == all_kinds()[j] && r@[j].wf(),
        decreases kinds@.len() - i,
    {
        r.push(entry(kinds[i]));
        i = i + 1;
    }
    r
}

} // verus!
