//! The tunnel table as a whole: what holds of it while tunnels come and change.
use crate::config::Config;
use crate::error::AppError;
use crate::ids::{id_text, law_id_texts_differ};
use crate::protocol::{
    AccessMode, CreateTunnelRequest, Timestamp, Tunnel, TunnelKind, UpdateTunnelRequest,
};
use crate::rows::{
    answers_one, gives_back, host_count, host_place, row_fault, row_place, same_origin, serves_host,
    written_over, TunnelRow,
};
use crate::text;
use crate::tunnels::{created, kind_text, port_used, updated};
use vstd::prelude::*;

verus! {

/// Whether two rows have in common what the table keeps unique: the identifier, the public port of
/// one kind of tunnel, or the host name, whatever the case of its letters.
pub open spec fn collide(a: TunnelRow, b: TunnelRow) -> bool {
    ||| a.id@ == b.id@
    ||| a.kind@ == b.kind@ && (a.kind@ == "tcp"@ || a.kind@ == "udp"@) && a.remote_port is Some
        && a.remote_port == b.remote_port
    ||| a.kind@ == "web"@ && b.kind@ == "web"@ && (a.hostname matches Some(x) && (
    b.hostname matches Some(y) && text::lower(x@) == text::lower(y@)))
}

/// Whether no two rows collide.
pub open spec fn unique(rows: Seq<TunnelRow>) -> bool {
    forall|i: int, j: int|
        0 <= i < j < rows.len() ==> !collide(#[trigger] rows[i], #[trigger] rows[j])
}

/// Whether a row collides with none but the one at a place.
pub open spec fn clear(rows: Seq<TunnelRow>, row: TunnelRow, place: int) -> bool {
    forall|i: int| 0 <= i < rows.len() && i != place ==> !collide(#[trigger] rows[i], row)
}

/// A row is found at the first place where its identifier stands.
pub proof fn lemma_row_place(rows: Seq<TunnelRow>, id: u128)
    ensures
        row_place(rows, id) <= rows.len(),
        row_place(rows, id) < rows.len() ==> rows[row_place(rows, id) as int].id@ == id_text(id),
        forall|i: int| 0 <= i < row_place(rows, id) ==> (#[trigger] rows[i]).id@ != id_text(id),
    decreases rows.len(),
{
    if rows.len() > 0 && rows[0].id@ != id_text(id) {
        lemma_row_place(rows.skip(1), id);
        assert forall|i: int| 0 <= i < row_place(rows, id) implies (#[trigger] rows[i]).id@
            != id_text(id) by {
            if i > 0 {
                assert(rows[i] == rows.skip(1)[i - 1]);
            }
        }
    }
}

/// The place of a row is where its identifier first stands.
proof fn lemma_place_is(rows: Seq<TunnelRow>, id: u128, place: int)
    requires
        0 <= place <= rows.len(),
        place < rows.len() ==> rows[place].id@ == id_text(id),
        forall|i: int| 0 <= i < place ==> (#[trigger] rows[i]).id@ != id_text(id),
    ensures
        row_place(rows, id) == place,
{
    lemma_row_place(rows, id);
    let found = row_place(rows, id) as int;
    if found < place {
        assert(rows[found].id@ != id_text(id));
    }
}

/// At most one row serves a host name, where the table is unique.
proof fn lemma_hosts(rows: Seq<TunnelRow>, hostname: Seq<char>)
    requires
        unique(rows),
    ensures
        host_place(rows, hostname) <= rows.len(),
        host_count(rows, hostname) == (if host_place(rows, hostname) < rows.len() {
            1nat
        } else {
            0
        }),
        host_place(rows, hostname) < rows.len() ==> serves_host(
            rows[host_place(rows, hostname) as int],
            hostname,
        ),
        forall|i: int|
            0 <= i < rows.len() && serves_host(#[trigger] rows[i], hostname) ==> i == host_place(
                rows,
                hostname,
            ),
    decreases rows.len(),
{
    lemma_host_place(rows, hostname);
    let place = host_place(rows, hostname) as int;
    assert forall|i: int| 0 <= i < rows.len() && serves_host(#[trigger] rows[i], hostname) implies i
        == place by {
        if i > place {
            assert(!collide(rows[place], rows[i]));
        }
    }
    if rows.len() > 0 {
        let start = rows.drop_last();
        assert forall|i: int, j: int| 0 <= i < j < start.len() implies !collide(
            #[trigger] start[i],
            #[trigger] start[j],
        ) by {
            assert(!collide(rows[i], rows[j]));
        }
        lemma_hosts(start, hostname);
        let before = host_place(start, hostname) as int;
        if before < start.len() {
            assert(serves_host(rows[before], hostname));
        }
        if place < start.len() {
            assert(serves_host(start[place], hostname));
        }
        if serves_host(rows.last(), hostname) {
            assert(serves_host(rows[rows.len() - 1], hostname));
        }
    }
}

/// The first row that serves a host name is found.
proof fn lemma_host_place(rows: Seq<TunnelRow>, hostname: Seq<char>)
    ensures
        host_place(rows, hostname) <= rows.len(),
        host_place(rows, hostname) < rows.len() ==> serves_host(
            rows[host_place(rows, hostname) as int],
            hostname,
        ),
        forall|i: int|
            0 <= i < host_place(rows, hostname) ==> !serves_host(#[trigger] rows[i], hostname),
    decreases rows.len(),
{
    if rows.len() > 0 && !serves_host(rows[0], hostname) {
        lemma_host_place(rows.skip(1), hostname);
        assert forall|i: int| 0 <= i < host_place(rows, hostname) implies !serves_host(
            #[trigger] rows[i],
            hostname,
        ) by {
            if i > 0 {
                assert(rows[i] == rows.skip(1)[i - 1]);
            }
        }
    }
}

/// A certificate is asked for a host name exactly where requests to it find their tunnel: on a
/// unique table whose rows can be read, `hostname_is_enabled` holds where `get_by_hostname` gives a
/// tunnel, and only there.
pub proof fn law_enabled_hosts_have_a_tunnel(
    rows: Seq<TunnelRow>,
    hostname: Seq<char>,
    r: Result<Tunnel, AppError>,
)
    requires
        unique(rows),
        forall|i: int| 0 <= i < rows.len() ==> row_fault(#[trigger] rows[i]) is None,
        answers_one(r, rows, host_place(rows, hostname)),
    ensures
        r is Ok <==> host_count(rows, hostname) == 1,
{
    lemma_hosts(rows, hostname);
}

/// A tunnel that was made and stored can be read, and nothing else has changed.
///
/// `get` finds the new row and gives the tunnel back, in the state of a stored one; every other
/// identifier leads where it led before. The table stays unique, where it took the row. The tunnel
/// has a public port of the range or a host name, as its kind asks, and where it is open to a list
/// of sources the list is not empty.
pub proof fn law_created_tunnels_are_kept(
    config: Config,
    rows: Seq<TunnelRow>,
    agent_id: u128,
    request: CreateTunnelRequest,
    now: Timestamp,
    t: Tunnel,
    row: TunnelRow,
)
    requires
        created(
            Ok::<(Tunnel, TunnelRow), AppError>((t, row)),
            config,
            rows,
            agent_id,
            request,
            now,
        ),
        now.four_digit_year(),
        clear(rows, row, -1),
    ensures
        row_place(rows.push(row), t.id) == rows.len(),
        gives_back(rows.push(row)[rows.len() as int], t@),
        forall|other: u128|
            other != t.id ==> {
                let place = #[trigger] row_place(rows, other);
                if place < rows.len() {
                    row_place(rows.push(row), other) == place && rows.push(row)[place as int]
                        == rows[place as int]
                } else {
                    row_place(rows.push(row), other) == rows.len() + 1
                }
            },
        unique(rows) ==> unique(rows.push(row)),
        t.agent_id == agent_id,
        t.kind == TunnelKind::Web ==> t.remote_port is None && t.hostname is Some,
        t.kind != TunnelKind::Web ==> t.hostname is None && (t.remote_port matches Some(p)
            && config.port_start <= p <= config.port_end),
        t.access_mode == AccessMode::Allowlist ==> t.allowed_cidrs@.len() > 0,
{
    let all = rows.push(row);
    let n = rows.len() as int;
    assert(all[n] == row);
    assert(row.id@ == id_text(t.id));
    assert forall|i: int| 0 <= i < n implies (#[trigger] all[i]).id@ != id_text(t.id) by {
        assert(all[i] == rows[i]);
        assert(!collide(rows[i], row));
    }
    lemma_place_is(all, t.id, n);
    assert forall|other: u128| other != t.id implies ({
        let place = #[trigger] row_place(rows, other);
        if place < rows.len() {
            row_place(all, other) == place && all[place as int] == rows[place as int]
        } else {
            row_place(all, other) == rows.len() + 1
        }
    }) by {
        lemma_row_place(rows, other);
        let place = row_place(rows, other);
        assert forall|i: int| 0 <= i < place implies (#[trigger] all[i]).id@ != id_text(other) by {
            assert(all[i] == rows[i]);
        }
        if place < rows.len() {
            lemma_place_is(all, other, place as int);
        } else {
            if id_text(other) == id_text(t.id) {
                law_id_texts_differ(other, t.id);
            }
            lemma_place_is(all, other, n + 1);
        }
    }
    if unique(rows) {
        assert forall|i: int, j: int| 0 <= i < j < all.len() implies !collide(
            #[trigger] all[i],
            #[trigger] all[j],
        ) by {
            assert(all[i] == rows[i]);
            if j < n {
                assert(all[j] == rows[j]);
                assert(!collide(rows[i], rows[j]));
            }
        }
    }
}

/// A public port that the relay picks collides with none that is stored: a new tunnel without a
/// port of its own choice is refused for its port by no unique index.
pub proof fn law_picked_ports_are_free(
    config: Config,
    rows: Seq<TunnelRow>,
    agent_id: u128,
    request: CreateTunnelRequest,
    now: Timestamp,
    t: Tunnel,
    row: TunnelRow,
)
    requires
        created(
            Ok::<(Tunnel, TunnelRow), AppError>((t, row)),
            config,
            rows,
            agent_id,
            request,
            now,
        ),
        request.kind != TunnelKind::Web,
        request.remote_port is None,
        forall|i: int| 0 <= i < rows.len() ==> (#[trigger] rows[i]).id@ != id_text(t.id),
    ensures
        clear(rows, row, -1),
{
    reveal_strlit("tcp");
    reveal_strlit("udp");
    reveal_strlit("web");
    assert("tcp"@[0] == 't' && "udp"@[0] == 'u' && "web"@[0] == 'w');
    let port = t.remote_port->0;
    assert(!port_used(rows, request.kind, port));
    assert forall|i: int| 0 <= i < rows.len() implies !collide(#[trigger] rows[i], row) by {
        if rows[i].kind@ == row.kind@ && rows[i].remote_port == row.remote_port {
            assert(rows[i].remote_port == Some(port as i64));
            assert(rows[i].remote_port->0 as u16 == port);
            assert(rows[i].kind@ == kind_text(request.kind));
            assert(port_used(rows, request.kind, port));
        }
    }
}

/// A tunnel that was changed and stored can be read, and nothing else has changed.
///
/// Its row is written over at its place and keeps its identifiers, its kind and the time of its
/// creation. `get` gives the changed tunnel back, in the state of a stored one; every other
/// identifier leads where it led before. The table stays unique, where it took the row.
pub proof fn law_updated_tunnels_are_kept(
    config: Config,
    rows: Seq<TunnelRow>,
    id: u128,
    owner: Option<u128>,
    request: UpdateTunnelRequest,
    now: Timestamp,
    t: Tunnel,
    row: TunnelRow,
)
    requires
        updated(
            Ok::<(Tunnel, TunnelRow), AppError>((t, row)),
            config,
            rows,
            id,
            owner,
            request,
            now,
        ),
        now.four_digit_year(),
    ensures
        ({
            let place = row_place(rows, id) as int;
            let written = written_over(rows[place], row);
            let all = rows.update(place, written);
            &&& 0 <= place < rows.len()
            &&& row_place(all, id) == place
            &&& gives_back(all[place], t@)
            &&& t.id == id
            &&& same_origin(rows[place], t@)
            &&& forall|other: u128|
                other != id ==> #[trigger] row_place(all, other) == row_place(rows, other)
            &&& forall|i: int| 0 <= i < rows.len() && i != place ==> #[trigger] all[i] == rows[i]
            &&& unique(rows) && clear(rows, written, place) ==> unique(all)
        }),
{
    let place = row_place(rows, id) as int;
    let written = written_over(rows[place], row);
    let all = rows.update(place, written);
    lemma_row_place(rows, id);
    assert(all[place].id@ == id_text(id));
    assert forall|i: int| 0 <= i < place implies (#[trigger] all[i]).id@ != id_text(id) by {
        assert(all[i] == rows[i]);
    }
    lemma_place_is(all, id, place);
    assert forall|other: u128| other != id implies #[trigger] row_place(all, other) == row_place(
        rows,
        other,
    ) by {
        lemma_row_place(rows, other);
        let found = row_place(rows, other) as int;
        if id_text(other) == id_text(id) {
            law_id_texts_differ(other, id);
        }
        assert forall|i: int| 0 <= i < found implies (#[trigger] all[i]).id@ != id_text(other) by {
            if i != place {
                assert(all[i] == rows[i]);
            }
        }
        lemma_place_is(all, other, found);
    }
    if unique(rows) && clear(rows, written, place) {
        assert forall|i: int, j: int| 0 <= i < j < all.len() implies !collide(
            #[trigger] all[i],
            #[trigger] all[j],
        ) by {
            assert(!collide(rows[i], rows[j]));
            if i == place {
                assert(!collide(rows[j], written));
            } else {
                assert(all[i] == rows[i]);
                if j == place {
                    assert(!collide(rows[i], written));
                }
            }
        }
    }
}

} // verus!
