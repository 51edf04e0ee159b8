use aicortex_store::migrations::{migrations, MigrationBody, EXPECTED_SCHEMA_VERSION};
use aicortex_store::{lifecycle, memory_repo, provenance_repo, scope};

/// The tables a read of which is a read of somebody's memory.
const SCOPED_TABLES: [&str; 5] = [
    "memory",
    "memory_derivation",
    "provenance",
    "scope",
    "scope_counter",
];

/// The predicate column every such statement must name.
const SCOPE_COLUMN: &str = "scope_id";

/// Every `SELECT` in `source` that reads a scoped table without naming
/// `scope_id` in the same statement.
fn unscoped_selects(source: &str) -> Vec<String> {
    let mut problems = Vec::new();
    for literal in string_literals(source) {
        for statement in literal.split(';') {
            let lowered = statement.to_lowercase();
            if !lowered.contains("select") {
                continue;
            }
            let reads_scoped_table = SCOPED_TABLES.iter().any(|table| {
                lowered.contains(&format!("from {table}"))
                    || lowered.contains(&format!("join {table}"))
            });
            if reads_scoped_table && !lowered.contains(SCOPE_COLUMN) {
                problems.push(statement.split_whitespace().collect::<Vec<_>>().join(" "));
            }
        }
    }
    problems
}

/// The string literals of `source`, with line comments removed.
///
/// A line comment is dropped only when an even number of unescaped quotes
/// precedes it, so a `//` inside a literal stays part of the literal.
fn string_literals(source: &str) -> Vec<String> {
    let mut code = String::with_capacity(source.len());
    for line in source.lines() {
        let mut quotes = 0usize;
        let mut escaped = false;
        let mut cut = line.len();
        let bytes = line.as_bytes();
        let mut at = 0;
        while at < bytes.len() {
            let byte = bytes[at];
            if escaped {
                escaped = false;
            } else if byte == b'\\' {
                escaped = true;
            } else if byte == b'"' {
                quotes += 1;
            } else if byte == b'/'
                && at + 1 < bytes.len()
                && bytes[at + 1] == b'/'
                && quotes % 2 == 0
            {
                cut = at;
                break;
            }
            at += 1;
        }
        code.push_str(&line[..cut]);
        code.push('\n');
    }

    let mut literals = Vec::new();
    let mut current: Option<String> = None;
    let mut escaped = false;
    for character in code.chars() {
        match current.as_mut() {
            None => {
                if character == '"' {
                    current = Some(String::new());
                }
            }
            Some(literal) => {
                if escaped {
                    literal.push(character);
                    escaped = false;
                } else if character == '\\' {
                    escaped = true;
                } else if character == '"' {
                    literals.push(current.take().unwrap_or_default());
                } else {
                    literal.push(character);
                }
            }
        }
    }
    literals
}

#[test]
fn fr007_the_check_refuses_an_unscoped_select() {
    let scoped = "const OK: &str = \"SELECT record FROM memory WHERE scope_id = $1 AND id = $2\";";
    assert!(
        unscoped_selects(scoped).is_empty(),
        "a scoped read was refused"
    );

    for defect in [
        "const BAD: &str = \"SELECT record FROM memory WHERE id = $1\";",
        "const BAD: &str = \"SELECT count FROM scope_counter\";",
        "const BAD: &str = \"SELECT parent_id FROM memory_derivation WHERE memory_id = $1\";",
        "const BAD: &str = \"INSERT INTO x SELECT 1 FROM provenance WHERE memory_id = $1\";",
    ] {
        assert!(
            !unscoped_selects(defect).is_empty(),
            "the check accepted {defect}"
        );
    }

    // A comment is not code, and a literal that merely mentions `//` is.
    let commented = "// SELECT record FROM memory WHERE id = $1";
    assert!(
        unscoped_selects(commented).is_empty(),
        "a comment was read as code"
    );
    let with_slashes = "const OK: &str = \"SELECT record FROM memory WHERE scope_id = $1 AND locator = 'https://x'\";";
    assert!(
        unscoped_selects(with_slashes).is_empty(),
        "a literal carrying // was cut short"
    );
}

#[test]
fn every_read_of_a_scoped_table_names_its_scope() {
    let statements = [
        memory_repo::GET_SQL,
        memory_repo::FINGERPRINT_SQL,
        memory_repo::LIST_BASE_SQL,
        provenance_repo::GET_SQL,
        provenance_repo::PARENTS_SQL,
        scope::GET_SQL,
        lifecycle::SUCCESSOR_SQL,
        lifecycle::PREDECESSOR_SQL,
        lifecycle::DUE_SQL,
        lifecycle::REDIGEST_READ_SQL,
        aicortex_store::counters::STATS_SQL,
    ];
    for statement in statements {
        let source = format!("const S: &str = \"{statement}\";");
        assert!(
            unscoped_selects(&source).is_empty(),
            "an unscoped read: {statement}"
        );
    }
}

#[test]
fn the_migrations_are_in_version_order_and_end_at_the_expected_version() {
    let list = migrations();
    assert_eq!(list.len(), 5);
    for (index, migration) in list.iter().enumerate() {
        assert_eq!(migration.version as usize, index + 1);
        assert!(migration.additive);
    }
    assert_eq!(list.last().map(|m| m.version), Some(EXPECTED_SCHEMA_VERSION));
    assert!(matches!(list[0].body, MigrationBody::Coordination));
}

#[test]
fn every_schema_statement_is_idempotent() {
    for migration in migrations() {
        if let MigrationBody::Sql(sql) = migration.body {
            for statement in sql.split(";\n") {
                assert!(
                    statement.starts_with("CREATE TABLE IF NOT EXISTS")
                        || statement.starts_with("CREATE INDEX IF NOT EXISTS")
                        || statement.starts_with("CREATE UNIQUE INDEX IF NOT EXISTS"),
                    "not idempotent: {statement}"
                );
            }
        }
    }
}

#[test]
fn the_fingerprint_index_is_unique_and_partial() {
    let sql = aicortex_store::migrations::FINGERPRINT_INDEX;
    assert!(sql.contains("UNIQUE"));
    assert!(sql.contains("status <> 'erased'"));
}
