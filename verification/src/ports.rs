//! The port table: which local port belongs to which service.

use vstd::prelude::*;

verus! {

/// Index at which the port of `addr` begins: just behind the last `:`,
/// or 0 where `addr` holds none.
pub open spec fn port_start(addr: Seq<char>) -> int
    decreases addr.len(),
{
    if addr.len() == 0 {
        0
    } else if addr.last() == ':' {
        addr.len() as int
    } else {
        port_start(addr.drop_last())
    }
}

/// The port of a `host:port` address: what follows its last `:`.
pub open spec fn port_of(addr: Seq<char>) -> Seq<char> {
    addr.skip(port_start(addr))
}

/// The port is what follows the last `:` of the address: a `:` stands just
/// before it and none within it. An address without `:` is its own port.
pub proof fn lemma_port_follows_last_colon(addr: Seq<char>)
    ensures
        0 <= port_start(addr) <= addr.len(),
        port_start(addr) > 0 ==> addr[port_start(addr) - 1] == ':',
        forall|i: int| port_start(addr) <= i < addr.len() ==> addr[i] != ':',
        !port_of(addr).contains(':'),
        !addr.contains(':') ==> port_of(addr) == addr,
    decreases addr.len(),
{
    if addr.len() > 0 {
        let front = addr.drop_last();
        lemma_port_follows_last_colon(front);
        if addr.last() != ':' {
            assert(port_start(front) > 0 ==> addr[port_start(front) - 1] == front[port_start(front)
                - 1]);
            assert forall|i: int| port_start(addr) <= i < addr.len() implies addr[i] != ':' by {
                if i < front.len() {
                    assert(addr[i] == front[i]);
                }
            }
        }
    }
    let port = port_of(addr);
    assert forall|k: int| 0 <= k < port.len() implies port[k] != ':' by {
        assert(port[k] == addr[port_start(addr) + k]);
    }
    if !addr.contains(':') {
        if port_start(addr) > 0 {
            assert(addr.contains(addr[port_start(addr) - 1]));
        }
        assert(addr.skip(0) == addr);
    }
}

/// Reads the port out of a `host:port` address.
pub fn extract_port(addr: &str) -> (port: String)
    ensures
        port@ == port_of(addr@),
{
    let n: usize = addr.unicode_len();
    let mut start: usize = 0;
    let mut i: usize = 0;
    for c in it: addr.chars()
        invariant
            i == it.index(),
            it.seq() == addr@,
            n == addr@.len(),
            start == port_start(addr@.take(i as int)),
            start <= i <= n,
    {
        proof {
            let grown = addr@.take(i + 1);
            assert(grown.drop_last() == addr@.take(i as int));
            assert(grown.last() == c);
        }
        i = i + 1;
        if c == ':' {
            start = i;
        }
    }
    assert(addr@.take(n as int) == addr@);
    assert(addr@.subrange(start as int, n as int) == addr@.skip(start as int));
    String::from_str(addr.substring_char(start, n))
}

/// One row of the port table.
#[derive(Clone, Debug, PartialEq, Eq)]
pub struct ServiceIdentity {
    pub name: String,
    pub port: String,
}

/// A row of the port table as mathematics sees it.
pub struct IdentityView {
    pub name: Seq<char>,
    pub port: Seq<char>,
}

impl View for ServiceIdentity {
    type V = IdentityView;

    open spec fn view(&self) -> IdentityView {
        IdentityView { name: self.name@, port: self.port@ }
    }
}

/// The rows as mathematics sees them.
pub open spec fn rows_view(rows: Seq<ServiceIdentity>) -> Seq<IdentityView> {
    rows.map_values(|row: ServiceIdentity| row@)
}

/// No two rows share a port.
pub open spec fn distinct_ports(rows: Seq<IdentityView>) -> bool {
    forall|i: int, j: int|
        0 <= i < j < rows.len() ==> (#[trigger] rows[i]).port != (#[trigger] rows[j]).port
}

/// The name that `rows` gives to `port`: that of the first row with this port.
pub open spec fn lookup(rows: Seq<IdentityView>, port: Seq<char>) -> Option<Seq<char>>
    decreases rows.len(),
{
    if rows.len() == 0 {
        None
    } else if rows[0].port == port {
        Some(rows[0].name)
    } else {
        lookup(rows.drop_first(), port)
    }
}

/// A port resolves exactly where some row holds this very port, and in a
/// table of distinct ports it resolves to the name of that row.
pub proof fn lemma_lookup_exact(rows: Seq<IdentityView>, port: Seq<char>)
    ensures
        lookup(rows, port) is Some <==> exists|i: int|
            0 <= i < rows.len() && (#[trigger] rows[i]).port == port,
        distinct_ports(rows) ==> forall|i: int|
            0 <= i < rows.len() && (#[trigger] rows[i]).port == port ==> lookup(rows, port)
                == Some(rows[i].name),
    decreases rows.len(),
{
    if rows.len() > 0 {
        let rest = rows.drop_first();
        lemma_lookup_exact(rest, port);
        if rows[0].port == port {
            assert forall|i: int| 0 <= i < rows.len() && (#[trigger] rows[i]).port
                == port && distinct_ports(rows) implies i == 0 by {
                if i > 0 {
                    assert(rows[0].port != rows[i].port);
                }
            }
        } else {
            if lookup(rest, port) is Some {
                let i = choose|i: int| 0 <= i < rest.len() && (#[trigger] rest[i]).port == port;
                assert(rows[i + 1] == rest[i]);
            }
            assert forall|i: int| 0 <= i < rows.len() && (#[trigger] rows[i]).port
                == port implies 0 <= i - 1 < rest.len() && rest[i - 1].port == port by {
                assert(rest[i - 1] == rows[i]);
            }
            if distinct_ports(rows) {
                assert forall|a: int, b: int| 0 <= a < b < rest.len() implies (#[trigger] rest[a]).port
                    != (#[trigger] rest[b]).port by {
                    assert(rest[a] == rows[a + 1]);
                    assert(rest[b] == rows[b + 1]);
                }
                assert forall|i: int| 0 <= i < rows.len() && (#[trigger] rows[i]).port
                    == port implies lookup(rows, port) == Some(rows[i].name) by {
                    assert(rest[i - 1] == rows[i]);
                }
            }
        }
    }
}

/// Two rows that share a port, `first` before `second`.
#[derive(Clone, Copy, Debug, PartialEq, Eq)]
pub struct DuplicatePort {
    pub first: usize,
    pub second: usize,
}

/// The earliest row that repeats the port of a row before it, with the
/// earliest row it repeats.
pub open spec fn is_first_clash(rows: Seq<IdentityView>, first: int, second: int) -> bool {
    &&& 0 <= first < second < rows.len()
    &&& rows[first].port == rows[second].port
    &&& distinct_ports(rows.take(second))
    &&& forall|k: int| 0 <= k < first ==> (#[trigger] rows[k]).port != rows[second].port
}

/// The static table from local port to service name. Its ports are distinct.
#[derive(Debug)]
pub struct PortTable {
    rows: Vec<ServiceIdentity>,
}

impl View for PortTable {
    type V = Seq<IdentityView>;

    closed spec fn view(&self) -> Seq<IdentityView> {
        rows_view(self.rows@)
    }
}

impl PortTable {
    #[verifier::type_invariant]
    spec fn inv(self) -> bool {
        distinct_ports(self@)
    }

    /// Builds the table, or names two rows that share a port.
    pub fn new(rows: Vec<ServiceIdentity>) -> (made: Result<PortTable, DuplicatePort>)
        ensures
            distinct_ports(rows_view(rows@)) <==> made is Ok,
            made matches Ok(table) ==> table@ == rows_view(rows@),
            made matches Err(clash) ==> is_first_clash(
                rows_view(rows@),
                clash.first as int,
                clash.second as int,
            ),
    {
        let ghost view = rows_view(rows@);
        let mut j: usize = 0;
        while j < rows.len()
            invariant
                j <= rows.len(),
                view == rows_view(rows@),
                distinct_ports(view.take(j as int)),
            decreases rows.len() - j,
        {
            let mut i: usize = 0;
            while i < j
                invariant
                    i <= j < rows.len(),
                    view == rows_view(rows@),
                    distinct_ports(view.take(j as int)),
                    forall|k: int| 0 <= k < i ==> (#[trigger] view[k]).port != view[j as int].port,
                decreases j - i,
            {
                assert(view[i as int] == rows@[i as int]@);
                assert(view[j as int] == rows@[j as int]@);
                if rows[i].port == rows[j].port {
                    return Err(DuplicatePort { first: i, second: j });
                }
                i = i + 1;
            }
            proof {
                let grown = view.take(j + 1);
                assert forall|a: int, b: int| 0 <= a < b < grown.len() implies (
                #[trigger] grown[a]).port != (#[trigger] grown[b]).port by {
                    if b < j {
                        assert(view.take(j as int)[a] == grown[a]);
                        assert(view.take(j as int)[b] == grown[b]);
                    }
                }
            }
            j = j + 1;
        }
        assert(view.take(j as int) == view);
        Ok(PortTable { rows })
    }

    /// Whether the table is well formed; holds of every table that exists.
    pub open spec fn wf(&self) -> bool {
        distinct_ports(self@)
    }

    /// Number of rows.
    pub fn len(&self) -> (n: usize)
        ensures
            n == self@.len(),
    {
        self.rows.len()
    }

    /// The row at `index`.
    pub fn row(&self, index: usize) -> (row: &ServiceIdentity)
        requires
            index < self@.len(),
        ensures
            row@ == self@[index as int],
    {
        &self.rows[index]
    }

    /// The service that listens on `port`, by exact match.
    pub fn resolve(&self, port: &str) -> (name: Option<&str>)
        ensures
            self.wf(),
            name is Some <==> lookup(self@, port@) is Some,
            name matches Some(found) ==> lookup(self@, port@) == Some(found@),
    {
        proof {
            use_type_invariant(self);
        }
        let mut i: usize = 0;
        assert(self@.skip(0) == self@);
        while i < self.rows.len()
            invariant
                i <= self.rows.len(),
                self.wf(),
                lookup(self@, port@) == lookup(self@.skip(i as int), port@),
            decreases self.rows.len() - i,
        {
            let ghost rest = self@.skip(i as int);
            assert(rest[0] == self.rows@[i as int]@);
            assert(rest.drop_first() == self@.skip(i + 1));
            if crate::text::same_text(self.rows[i].port.as_str(), port) {
                return Some(self.rows[i].name.as_str());
            }
            i = i + 1;
        }
        None
    }
}

} // verus!
