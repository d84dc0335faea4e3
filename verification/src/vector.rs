//! Where the vectors of messages are kept.

use crate::text;
use vstd::prelude::*;
use vstd::string::*;

verus! {

/// The store of vectors.
pub enum VectorStoreConfig {
    /// A LanceDB database in a directory, and a table in it.
    LanceDB { path: String, table: String },
}

/// The directory of the database where none is configured.
pub fn default_path() -> (out: String)
    ensures
        out@ == "~/.gasket/vectors"@,
{
    text::copy_str("~/.gasket/vectors")
}

/// The table where none is configured.
pub fn default_table_name() -> (out: String)
    ensures
        out@ == "event_embeddings"@,
{
    text::copy_str("event_embeddings")
}

impl Default for VectorStoreConfig {
    fn default() -> (out: Self)
        ensures
            out matches VectorStoreConfig::LanceDB { path, table } && path@ == "~/.gasket/vectors"@
                && table@ == "event_embeddings"@,
    {
        VectorStoreConfig::LanceDB { path: default_path(), table: default_table_name() }
    }
}

/// Where nothing is configured, the vectors are kept below the directory of the
/// configuration, in a table of their own.
pub proof fn law_vectors_are_kept_at_home(path: String, table: String)
    requires
        call_ensures(default_path, (), path),
        call_ensures(default_table_name, (), table),
    ensures
        path@ == "~/.gasket"@ + "/vectors"@,
        table@ == "event_embeddings"@,
{
    reveal_strlit("~/.gasket");
    reveal_strlit("/vectors");
    reveal_strlit("~/.gasket/vectors");
    assert(path@ =~= "~/.gasket"@ + "/vectors"@);
}

} // verus!
