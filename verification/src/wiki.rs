//! The tables behind the wiki. The content of its pages stands in files; the
//! tables hold what is derived from them and what changes while they are used.

use crate::text;
use vstd::prelude::*;
use vstd::string::*;

verus! {

/// The table of pages.
pub const CREATE_PAGES: &'static str = "
        CREATE TABLE IF NOT EXISTS wiki_pages (
            path         TEXT PRIMARY KEY,
            title        TEXT NOT NULL,
            type         TEXT NOT NULL,
            category     TEXT,
            tags         TEXT,
            content      TEXT NOT NULL DEFAULT '',
            summary      TEXT,
            created      TEXT NOT NULL,
            updated      TEXT NOT NULL,
            source_count INTEGER DEFAULT 0,
            confidence   REAL DEFAULT 1.0,
            checksum     TEXT,
            frequency    TEXT DEFAULT 'warm',
            access_count INTEGER DEFAULT 0,
            last_accessed TEXT,
            file_mtime   INTEGER,
            sync_sequence INTEGER DEFAULT 0
        )
        ";

/// The index of one column.
pub open spec fn index_statement(column: Seq<char>) -> Seq<char> {
    "CREATE INDEX IF NOT EXISTS idx_wiki_pages_"@ + column + " ON wiki_pages("@ + column + ")"@
}

/// The statements that set up the tables, in order: the table itself, then its
/// indexes.
pub open spec fn table_statements() -> Seq<Seq<char>> {
    seq![
        CREATE_PAGES@,
        index_statement("type"@),
        index_statement("category"@),
        index_statement("updated"@),
        index_statement("frequency"@),
        index_statement("last_accessed"@),
    ]
}

fn index_on(column: &str) -> (out: String)
    ensures
        out@ == index_statement(column@),
{
    text::cat5(
        "CREATE INDEX IF NOT EXISTS idx_wiki_pages_",
        column,
        " ON wiki_pages(",
        column,
        ")",
    )
}

/// The statements that set up the tables, to be run in order. Each is harmless
/// where it has been run before.
pub fn create_wiki_tables() -> (out: Vec<String>)
    ensures
        text::views(out@) == table_statements(),
{
    let mut out: Vec<String> = Vec::new();
    out.push(text::copy_str(CREATE_PAGES));
    out.push(index_on("type"));
    out.push(index_on("category"));
    out.push(index_on("updated"));
    out.push(index_on("frequency"));
    out.push(index_on("last_accessed"));
    assert(text::views(out@) =~= table_statements());
    out
}

/// The table comes first, and each index behind it is named after the column that it
/// is on.
pub proof fn law_indexes_follow_the_table(out: Vec<String>, k: int)
    requires
        call_ensures(create_wiki_tables, (), out),
        1 <= k < out@.len(),
    ensures
        out@.len() == 6,
        out@[0]@ == CREATE_PAGES@,
        ({
            let column = seq!["type"@, "category"@, "updated"@, "frequency"@, "last_accessed"@][k - 1];
            out@[k]@ == "CREATE INDEX IF NOT EXISTS idx_wiki_pages_"@ + column + " ON wiki_pages("@
                + column + ")"@
        }),
{
    assert(text::views(out@).len() == out@.len());
    assert(text::views(out@)[0] == out@[0]@);
    assert(text::views(out@)[k] == out@[k]@);
}

} // verus!
