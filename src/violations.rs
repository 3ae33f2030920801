use vstd::prelude::*;

verus! {

/// The closed set of checks this linter knows.
#[derive(Clone, Copy, Debug, PartialEq, Eq, Hash, Structural)]
pub enum RuleViolationKind {
    RequireConcurrentIndexCreation,
    ConstraintMissingNotValid,
    AddingFieldWithDefault,
    AddingNotNullableField,
    ChangingColumnType,
    DisallowedUniqueConstraint,
    RenamingColumn,
    RenamingTable,
    PreferTextField,
    PreferRobustStmts,
    BanCharField,
    BanDropDatabase,
}

/// The canonical, lower-case hyphenated name of a rule kind.
pub open spec fn kind_name(k: RuleViolationKind) -> Seq<char> {
    match k {
        RuleViolationKind::RequireConcurrentIndexCreation => "require-concurrent-index-creation"@,
        RuleViolationKind::ConstraintMissingNotValid => "constraint-missing-not-valid"@,
        RuleViolationKind::AddingFieldWithDefault => "adding-field-with-default"@,
        RuleViolationKind::AddingNotNullableField => "adding-not-nullable-field"@,
        RuleViolationKind::ChangingColumnType => "changing-column-type"@,
        RuleViolationKind::DisallowedUniqueConstraint => "disallowed-unique-constraint"@,
        RuleViolationKind::RenamingColumn => "renaming-column"@,
        RuleViolationKind::RenamingTable => "renaming-table"@,
        RuleViolationKind::PreferTextField => "prefer-text-field"@,
        RuleViolationKind::PreferRobustStmts => "prefer-robust-stmts"@,
        RuleViolationKind::BanCharField => "ban-char-field"@,
        RuleViolationKind::BanDropDatabase => "ban-drop-database"@,
    }
}

/// Every kind, in the order the rule table registers them.
pub open spec fn all_kinds() -> Seq<RuleViolationKind> {
    seq![
        RuleViolationKind::RequireConcurrentIndexCreation,
        RuleViolationKind::RenamingColumn,
        RuleViolationKind::RenamingTable,
        RuleViolationKind::ChangingColumnType,
        RuleViolationKind::AddingNotNullableField,
        RuleViolationKind::AddingFieldWithDefault,
        RuleViolationKind::DisallowedUniqueConstraint,
        RuleViolationKind::ConstraintMissingNotValid,
        RuleViolationKind::BanDropDatabase,
        RuleViolationKind::PreferTextField,
        RuleViolationKind::PreferRobustStmts,
        RuleViolationKind::BanCharField,
    ]
}

/// The kind whose canonical name is `s`, if any.
pub open spec fn kind_of_name(s: Seq<char>) -> Option<RuleViolationKind> {
    if exists|k: RuleViolationKind| kind_name(k) == s {
        Some(choose|k: RuleViolationKind| kind_name(k) == s)
    } else {
        None
    }
}

/// No two kinds share a canonical name.
pub proof fn lemma_kind_names_distinct(a: RuleViolationKind, b: RuleViolationKind)
    ensures
        kind_name(a) == kind_name(b) ==> a == b,
{
    reveal_strlit("require-concurrent-index-creation");
    reveal_strlit("constraint-missing-not-valid");
    reveal_strlit("adding-field-with-default");
    reveal_strlit("adding-not-nullable-field");
    reveal_strlit("changing-column-type");
    reveal_strlit("disallowed-unique-constraint");
    reveal_strlit("renaming-column");
    reveal_strlit("renaming-table");
    reveal_strlit("prefer-text-field");
    reveal_strlit("prefer-robust-stmts");
    reveal_strlit("ban-char-field");
    reveal_strlit("ban-drop-database");
    if kind_name(a) == kind_name(b) {
        assert(kind_name(a)[0] == kind_name(b)[0]);
        assert(kind_name(a).len() == kind_name(b).len());
        assert(kind_name(a)[4] == kind_name(b)[4]);
        assert(kind_name(a)[8] == kind_name(b)[8]);
        assert(kind_name(a)[10] == kind_name(b)[10]);
    }
}

/// Resolving the canonical name of any kind gives that kind back.
pub proof fn law_name_round_trip(k: RuleViolationKind)
    ensures
        kind_of_name(kind_name(k)) == Some(k),
{
    assert(exists|j: RuleViolationKind| kind_name(j) == kind_name(k));
    let c = choose|j: RuleViolationKind| kind_name(j) == kind_name(k);
    lemma_kind_names_distinct(c, k);
}

/// Whether two strings hold the same characters.
pub fn text_eq(a: &str, b: &str) -> (r: bool)
    ensures
        r == (a@ == b@),
{
    let x = a.to_owned();
    let y = b.to_owned();
    x == y
}

/// One line of explanation attached to a finding.
#[derive(Clone, Debug, PartialEq, Eq)]
pub enum ViolationMessage {
    /// Why the pattern is dangerous.
    Note(String),
    /// What to do instead.
    Help(String),
}

/// The mathematical value of a message.
pub enum MessageModel {
    Note(Seq<char>),
    Help(Seq<char>),
}

impl View for ViolationMessage {
    type V = MessageModel;

    open spec fn view(&self) -> MessageModel {
        match self {
            ViolationMessage::Note(t) => MessageModel::Note(t@),
            ViolationMessage::Help(t) => MessageModel::Help(t@),
        }
    }
}

pub open spec fn message_models(v: Seq<ViolationMessage>) -> Seq<MessageModel> {
    v.map_values(|m: ViolationMessage| m@)
}

/// A half-open byte range `[start, end)` of the source text.
#[derive(Clone, Copy, Debug, PartialEq, Eq, Structural)]
pub struct Span {
    pub start: usize,
    pub end: usize,
}

/// One finding: which rule, where, and the rule's messages.
#[derive(Clone, Debug, PartialEq, Eq)]
pub struct RuleViolation {
    pub kind: RuleViolationKind,
    pub span: Span,
    pub messages: Vec<ViolationMessage>,
}

/// The mathematical value of a finding.
pub struct ViolationModel {
    pub kind: RuleViolationKind,
    pub span: Span,
    pub messages: Seq<MessageModel>,
}

impl View for RuleViolation {
    type V = ViolationModel;

    open spec fn view(&self) -> ViolationModel {
        ViolationModel { kind: self.kind, span: self.span, messages: message_models(self.messages@) }
    }
}

pub open spec fn violation_models(v: Seq<RuleViolation>) -> Seq<ViolationModel> {
    v.map_values(|x: RuleViolation| x@)
}

impl RuleViolationKind {
    /// The canonical name of this kind.
    pub fn name(&self) -> (r: &'static str)
        ensures
            r@ == kind_name(*self),
    {
        match self {
            RuleViolationKind::RequireConcurrentIndexCreation => "require-concurrent-index-creation",
            RuleViolationKind::ConstraintMissingNotValid => "constraint-missing-not-valid",
            RuleViolationKind::AddingFieldWithDefault => "adding-field-with-default",
            RuleViolationKind::AddingNotNullableField => "adding-not-nullable-field",
            RuleViolationKind::ChangingColumnType => "changing-column-type",
            RuleViolationKind::DisallowedUniqueConstraint => "disallowed-unique-constraint",
            RuleViolationKind::RenamingColumn => "renaming-column",
            RuleViolationKind::RenamingTable => "renaming-table",
            RuleViolationKind::PreferTextField => "prefer-text-field",
            RuleViolationKind::PreferRobustStmts => "prefer-robust-stmts",
            RuleViolationKind::BanCharField => "ban-char-field",
            RuleViolationKind::BanDropDatabase => "ban-drop-database",
        }
    }

    /// The canonical name of this kind, as an owned string.
    pub fn to_string(&self) -> (r: String)
        ensures
            r@ == kind_name(*self),
    {
        self.name().to_owned()
    }

    /// Every kind, in rule-table order.
    pub fn all() -> (r: Vec<RuleViolationKind>)
        ensures
            r@ == all_kinds(),
    {
        let r = vec![
            RuleViolationKind::RequireConcurrentIndexCreation,
            RuleViolationKind::RenamingColumn,
            RuleViolationKind::RenamingTable,
            RuleViolationKind::ChangingColumnType,
            RuleViolationKind::AddingNotNullableField,
            RuleViolationKind::AddingFieldWithDefault,
            RuleViolationKind::DisallowedUniqueConstraint,
            RuleViolationKind::ConstraintMissingNotValid,
            RuleViolationKind::BanDropDatabase,
            RuleViolationKind::PreferTextField,
            RuleViolationKind::PreferRobustStmts,
            RuleViolationKind::BanCharField,
        ];
        assert(r@ =~= all_kinds());
        r
    }

    /// Resolves a canonical name; any other string is refused.
    pub fn try_from(s: &str) -> (r: Result<RuleViolationKind, ()>)
        ensures
            r matches Ok(k) ==> kind_of_name(s@) == Some(k),
            r is Err ==> kind_of_name(s@) is None,
    {
        let kinds = RuleViolationKind::all();
        let mut i: usize = 0;
        while i < kinds.len()
            invariant
                i <= kinds@.len(),
                kinds@ == all_kinds(),
                forall|j: int| 0 <= j < i ==> kind_name(#[trigger] kinds@[j]) != s@,
            decreases kinds@.len() - i,
        {
            let k = kinds[i];
            if text_eq(k.name(), s) {
                proof { law_name_round_trip(k); }
                return Ok(k);
            }
            i = i + 1;
        }
        proof {
            if exists|k: RuleViolationKind| kind_name(k) == s@ {
                let k = choose|k: RuleViolationKind| kind_name(k) == s@;
                assert(all_kinds().contains(k)) by {
                    match k {
                        RuleViolationKind::RequireConcurrentIndexCreation => assert(all_kinds()[0] == k),
                        RuleViolationKind::RenamingColumn => assert(all_kinds()[1] == k),
                        RuleViolationKind::RenamingTable => assert(all_kinds()[2] == k),
                        RuleViolationKind::ChangingColumnType => assert(all_kinds()[3] == k),
                        RuleViolationKind::AddingNotNullableField => assert(all_kinds()[4] == k),
                        RuleViolationKind::AddingFieldWithDefault => assert(all_kinds()[5] == k),
                        RuleViolationKind::DisallowedUniqueConstraint => assert(all_kinds()[6] == k),
                        RuleViolationKind::ConstraintMissingNotValid => assert(all_kinds()[7] == k),
                        RuleViolationKind::BanDropDatabase => assert(all_kinds()[8] == k),
                        RuleViolationKind::PreferTextField => assert(all_kinds()[9] == k),
                        RuleViolationKind::PreferRobustStmts => assert(all_kinds()[10] == k),
                        RuleViolationKind::BanCharField => assert(all_kinds()[11] == k),
                    }
                }
            }
        }
        Err(())
    }
}

} // verus!
