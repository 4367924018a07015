//! The configuration that is compiled in: the port table and the sources.

use crate::discovery::{sources_view, SourceView, TunnelSource};
use crate::ports::{distinct_ports, rows_view, IdentityView, PortTable, ServiceIdentity};
use vstd::prelude::*;

verus! {

/// The rows of the compiled-in port table.
pub open spec fn default_rows() -> Seq<IdentityView> {
    seq![
        IdentityView { name: "gpt4o"@, port: "9977"@ },
        IdentityView { name: "mixtral"@, port: "9988"@ },
        IdentityView { name: "deepseek"@, port: "9966"@ },
    ]
}

/// The compiled-in tunnel sources, in the order in which they are asked.
pub open spec fn default_source_list() -> Seq<SourceView> {
    seq![
        SourceView { label: "main"@, base_url: "http://localhost:4040/api/tunnels"@ },
        SourceView { label: "alt"@, base_url: "http://localhost:4041/api/tunnels"@ },
    ]
}

/// The ports of the compiled-in table differ from one another.
pub proof fn lemma_default_rows_distinct()
    ensures
        distinct_ports(default_rows()),
{
    reveal_strlit("9977");
    reveal_strlit("9988");
    reveal_strlit("9966");
    assert("9977"@[2] != "9988"@[2]);
    assert("9977"@[2] != "9966"@[2]);
    assert("9988"@[2] != "9966"@[2]);
}

fn identity(name: &str, port: &str) -> (row: ServiceIdentity)
    ensures
        row@ == (IdentityView { name: name@, port: port@ }),
{
    ServiceIdentity { name: String::from_str(name), port: String::from_str(port) }
}

fn source(label: &str, base_url: &str) -> (source: TunnelSource)
    ensures
        source@ == (SourceView { label: label@, base_url: base_url@ }),
{
    TunnelSource { label: String::from_str(label), base_url: String::from_str(base_url) }
}

/// The compiled-in port table.
pub fn default_table() -> (table: PortTable)
    ensures
        table@ == default_rows(),
{
    let mut rows: Vec<ServiceIdentity> = Vec::new();
    rows.push(identity("gpt4o", "9977"));
    rows.push(identity("mixtral", "9988"));
    rows.push(identity("deepseek", "9966"));
    proof {
        assert(rows_view(rows@) =~= default_rows());
        lemma_default_rows_distinct();
    }
    match PortTable::new(rows) {
        Ok(table) => table,
        Err(_) => unreached(),
    }
}

/// The compiled-in tunnel sources.
pub fn default_sources() -> (sources: Vec<TunnelSource>)
    ensures
        sources_view(sources@) == default_source_list(),
{
    let mut sources: Vec<TunnelSource> = Vec::new();
    sources.push(source("main", "http://localhost:4040/api/tunnels"));
    sources.push(source("alt", "http://localhost:4041/api/tunnels"));
    assert(sources_view(sources@) =~= default_source_list());
    sources
}

} // verus!
