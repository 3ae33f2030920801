use squawk_linter::{check_sql, check_statements, rules, RuleViolationKind, Span, Statement};

/// Ensure we handle both serializing and deserializing RuleViolationKind
#[test]
fn test_parsing_rule_kind() {
    let rule_names = rules().into_iter().map(|r| r.name);
    for rule in rule_names {
        assert_eq!(
            RuleViolationKind::try_from(rule.to_string().as_ref()),
            Ok(rule)
        );
    }
}

/// Ensure we stort the resulting violations by where they occur in the file.
#[test]
fn test_check_rules_orderin() {
    let sql = r#"
  ALTER TABLE "table_name" RENAME COLUMN "column_name" TO "new_column_name";
  CREATE INDEX "field_name_idx" ON "table_name" ("field_name");
  "#;

    let res = check_sql(sql, &["prefer-robust-stmts".into()]).expect("valid parsing of SQL");
    let mut prev_span_start: i64 = -1;
    for violation in res.iter() {
        assert!(violation.span.start as i64 > prev_span_start);
        prev_span_start = violation.span.start as i64;
    }
}

#[test]
fn rename_then_index_scenario() {
    let sql = r#"ALTER TABLE "t" RENAME COLUMN "a" TO "b"; CREATE INDEX "idx" ON "t" ("a");"#;
    let res = check_sql(sql, &["prefer-robust-stmts".to_string()]).unwrap();
    assert_eq!(res.len(), 2);
    assert_eq!(res[0].kind.to_string(), "renaming-column");
    assert_eq!(res[1].kind.to_string(), "require-concurrent-index-creation");
    assert_eq!(res[0].span.start, 0);
    assert_eq!(res[1].span.start, sql.find("CREATE").unwrap());
    assert!(res[0].span.start < res[1].span.start);
    assert!(res[0].span.end <= res[1].span.start);
    assert_eq!(res[1].messages.len(), 2);
}

#[test]
fn robust_statements_rule_runs_when_not_excluded() {
    let sql = r#"ALTER TABLE "t" RENAME COLUMN "a" TO "b"; CREATE INDEX "idx" ON "t" ("a");"#;
    let res = check_sql(sql, &[]).unwrap();
    let names: Vec<String> = res.iter().map(|v| v.kind.to_string()).collect();
    assert_eq!(
        names,
        vec!["renaming-column", "require-concurrent-index-creation", "prefer-robust-stmts"]
    );
}

#[test]
fn exclusion_removes_only_named_kinds() {
    let sql = r#"ALTER TABLE "t" RENAME COLUMN "a" TO "b"; CREATE INDEX "idx" ON "t" ("a");"#;
    let all = check_sql(sql, &[]).unwrap();
    let some = check_sql(sql, &["renaming-column".to_string()]).unwrap();
    let expected: Vec<_> = all
        .into_iter()
        .filter(|v| v.kind != RuleViolationKind::RenamingColumn)
        .collect();
    assert_eq!(some, expected);
}

#[test]
fn unknown_exclusion_is_ignored() {
    let sql = r#"CREATE INDEX "idx" ON "t" ("a");"#;
    let plain = check_sql(sql, &[]).unwrap();
    let with_unknown = check_sql(sql, &["no-such-rule".to_string()]).unwrap();
    assert_eq!(plain, with_unknown);
    assert_eq!(plain.len(), 2);
}

#[test]
fn empty_and_blank_sources_have_no_findings() {
    assert_eq!(check_sql("", &[]).unwrap(), vec![]);
    assert_eq!(check_sql("   \n\t  ", &[]).unwrap(), vec![]);
}

#[test]
fn malformed_source_is_a_parse_failure() {
    let res = check_sql("ALTER TABLE;", &[]);
    let err = res.unwrap_err();
    assert!(!err.message.is_empty());
}

#[test]
fn concurrent_index_with_guard_is_clean() {
    let sql = r#"CREATE INDEX CONCURRENTLY IF NOT EXISTS "idx" ON "t" ("a");"#;
    assert_eq!(check_sql(sql, &[]).unwrap(), vec![]);
}

#[test]
fn drop_database_is_flagged() {
    let res = check_sql("DROP DATABASE prod;", &[]).unwrap();
    assert_eq!(res.len(), 1);
    assert_eq!(res[0].kind, RuleViolationKind::BanDropDatabase);
    assert_eq!(res[0].span, Span { start: 0, end: 19 });
}

#[test]
fn not_null_column_with_default_is_flagged_twice() {
    let sql = "ALTER TABLE t ADD COLUMN IF NOT EXISTS c int NOT NULL DEFAULT 1;";
    let res = check_sql(sql, &[]).unwrap();
    let kinds: Vec<RuleViolationKind> = res.iter().map(|v| v.kind).collect();
    assert_eq!(
        kinds,
        vec![RuleViolationKind::AddingNotNullableField, RuleViolationKind::AddingFieldWithDefault]
    );
}

#[test]
fn rename_table_and_change_type() {
    let sql = "ALTER TABLE t RENAME TO u;\nALTER TABLE u ALTER COLUMN c TYPE bigint;";
    let res = check_sql(sql, &[]).unwrap();
    let kinds: Vec<RuleViolationKind> = res.iter().map(|v| v.kind).collect();
    assert_eq!(kinds, vec![RuleViolationKind::RenamingTable, RuleViolationKind::ChangingColumnType]);
    assert_eq!(res[1].span.start, 27);
}

#[test]
fn constraints_without_not_valid() {
    let sql = "ALTER TABLE t ADD CONSTRAINT u UNIQUE (c);";
    let res = check_sql(sql, &[]).unwrap();
    let kinds: Vec<RuleViolationKind> = res.iter().map(|v| v.kind).collect();
    assert_eq!(
        kinds,
        vec![RuleViolationKind::DisallowedUniqueConstraint, RuleViolationKind::ConstraintMissingNotValid]
    );
    let ok = check_sql("ALTER TABLE t ADD CONSTRAINT f CHECK (c > 0) NOT VALID;", &[]).unwrap();
    assert_eq!(ok, vec![]);
}

#[test]
fn char_and_varchar_columns() {
    let res = check_sql("CREATE TABLE IF NOT EXISTS t (a char(3), b varchar(10));", &[]).unwrap();
    let kinds: Vec<RuleViolationKind> = res.iter().map(|v| v.kind).collect();
    assert_eq!(kinds, vec![RuleViolationKind::PreferTextField, RuleViolationKind::BanCharField]);
    let varying = check_sql("CREATE TABLE IF NOT EXISTS t (b character varying);", &[]).unwrap();
    assert_eq!(varying.len(), 1);
    assert_eq!(varying[0].kind, RuleViolationKind::PreferTextField);
}

#[test]
fn unknown_name_does_not_resolve() {
    assert_eq!(RuleViolationKind::try_from("Renaming-Column"), Err(()));
    assert_eq!(RuleViolationKind::try_from(""), Err(()));
    assert_eq!(
        RuleViolationKind::try_from("ban-char-field"),
        Ok(RuleViolationKind::BanCharField)
    );
}

#[test]
fn every_kind_has_a_distinct_name() {
    let names: Vec<String> = RuleViolationKind::all().iter().map(|k| k.to_string()).collect();
    assert_eq!(names.len(), 12);
    for (i, a) in names.iter().enumerate() {
        for b in names.iter().skip(i + 1) {
            assert_ne!(a, b);
        }
    }
}

#[test]
fn equal_starts_keep_table_order() {
    let stmt = |start: usize, end: usize, kinds: &[&str]| Statement {
        start,
        end,
        kinds: kinds.iter().map(|k| k.to_string()).collect(),
    };
    let stmts = vec![
        stmt(10, 20, &["ALTER_TABLE", "RENAME_COLUMN"]),
        stmt(0, 5, &["CREATE_INDEX", "ALTER_TABLE", "RENAME_TO"]),
    ];
    let res = check_statements(&stmts, &[]);
    let got: Vec<(RuleViolationKind, usize)> = res.iter().map(|v| (v.kind, v.span.start)).collect();
    assert_eq!(
        got,
        vec![
            (RuleViolationKind::RequireConcurrentIndexCreation, 0),
            (RuleViolationKind::RenamingTable, 0),
            (RuleViolationKind::PreferRobustStmts, 0),
            (RuleViolationKind::RenamingColumn, 10),
        ]
    );
}

#[test]
fn unterminated_comment_after_valid_statement_fails() {
    let sql = "CREATE INDEX i ON t (a); /* DROP DATABASE prod;";
    let err = check_sql(sql, &[]).unwrap_err();
    assert!(!err.message.is_empty());
    assert_eq!(err.pos, sql.find("/*").unwrap());
}

#[test]
fn unterminated_string_fails() {
    let sql = "ALTER TABLE t ADD COLUMN c text DEFAULT 'oops;";
    assert!(check_sql(sql, &[]).is_err());
}

#[test]
fn malformed_statement_after_valid_one_fails() {
    let sql = r#"ALTER TABLE "t" RENAME COLUMN "a" TO "b"; this is not sql;"#;
    assert!(check_sql(sql, &[]).is_err());
}

#[test]
fn fixed_character_beside_varying_is_flagged() {
    let sql = "CREATE TABLE IF NOT EXISTS t (a character(3), b character varying);";
    let res = check_sql(sql, &[]).unwrap();
    let kinds: Vec<RuleViolationKind> = res.iter().map(|v| v.kind).collect();
    assert_eq!(kinds, vec![RuleViolationKind::PreferTextField, RuleViolationKind::BanCharField]);
}

#[test]
fn dot_before_fraction_is_refused() {
    let err = check_sql("select a..5;", &[]).unwrap_err();
    assert_eq!(err.pos, 8);
    assert!(!err.message.is_empty());
}

#[test]
fn dotted_numeric_field_is_refused() {
    let err = check_sql("select a.1.2 from t;", &[]).unwrap_err();
    assert_eq!(err.pos, 8);
}

#[test]
fn qualified_names_still_parse() {
    let res = check_sql("ALTER TABLE s.t RENAME COLUMN a TO b; SELECT t.a, 1.5 FROM s.t;", &[]).unwrap();
    assert_eq!(res.len(), 1);
    assert_eq!(res[0].kind, RuleViolationKind::RenamingColumn);
}
