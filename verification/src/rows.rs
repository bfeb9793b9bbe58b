//! The rows in which tunnels are stored.
use crate::clock::{read_time, time_error, time_text, time_value, write_time};
use crate::error::{fault, AppError};
use crate::ids::{id_error, id_text, id_value, read_id, write_id};
use crate::net::{all_valid, cidr_text, Cidr, IpAddr};
use crate::protocol::{
    copy_opt, opt_text, tunnel_views, AccessMode, LocalScheme, Tunnel, TunnelKind, TunnelStatus,
    TunnelView,
};
use crate::text;
use crate::tunnels::{
    access_mode_str, access_text, access_value, kind_str, kind_text, kind_value, parse_access,
    parse_kind, parse_scheme, scheme_str, scheme_text, scheme_value,
};
use vstd::prelude::*;

verus! {

/// A row of the tunnel table.
#[derive(Debug, Clone, PartialEq, Eq)]
pub struct TunnelRow {
    pub id: String,
    pub agent_id: String,
    pub name: String,
    pub local_host: String,
    pub local_port: i64,
    pub kind: String,
    pub local_scheme: String,
    pub remote_port: Option<i64>,
    pub hostname: Option<String>,
    pub access_mode: String,
    pub allowed_cidrs: String,
    pub enabled: bool,
    pub created_at: String,
    pub updated_at: String,
}

/// The texts that a list of strings shows.
pub open spec fn strings(list: Seq<String>) -> Seq<Seq<char>> {
    list.map_values(|s: String| s@)
}

/// The texts of address blocks.
pub open spec fn cidr_texts(list: Seq<Cidr>) -> Seq<Seq<char>> {
    list.map_values(|c: Cidr| cidr_text(c))
}

/// Texts in quotation marks, with commas between them.
pub open spec fn quoted(items: Seq<Seq<char>>) -> Seq<char>
    decreases items.len(),
{
    if items.len() == 0 {
        Seq::empty()
    } else {
        let head = quoted(items.drop_last());
        (if items.len() == 1 {
            head
        } else {
            head.push(',')
        }) + seq!['"'] + items.last() + seq!['"']
    }
}

/// The JSON text of a list of address blocks.
pub open spec fn blocks_text(list: Seq<Cidr>) -> Seq<char> {
    seq!['['] + quoted(cidr_texts(list)) + seq![']']
}

/// The address blocks that a JSON text lists, or what is wrong with the text.
pub uninterp spec fn blocks_reading(text: Seq<char>) -> Result<Seq<Cidr>, Seq<char>>;

/// The address blocks that a stored text lists.
pub open spec fn stored_cidrs(text: Seq<char>) -> Option<Seq<Cidr>> {
    match blocks_reading(text) {
        Ok(list) => Some(list),
        Err(_) => None,
    }
}

/// `serde_json::to_string` on a list of `ipnet::IpNet`, which does not fail: the blocks in quotation
/// marks, between brackets. Reading that text gives the list back.
#[verifier::external_body]
pub(crate) fn write_blocks(list: &Vec<Cidr>) -> (r: String)
    requires
        all_valid(list@),
    ensures
        r@ == blocks_text(list@),
        stored_cidrs(r@) == Some(list@),
{
    let nets: Vec<ipnet::IpNet> = list.iter().map(
        |block|
            match block.addr {
                IpAddr::V4(v) => ipnet::Ipv4Net::new_assert(v.into(), block.prefix).into(),
                IpAddr::V6(v) => ipnet::Ipv6Net::new_assert(v.into(), block.prefix).into(),
            },
    ).collect();
    serde_json::to_string(&nets).unwrap_or_default()
}

/// `serde_json::from_str` into a list of `ipnet::IpNet`: the blocks that the text lists, each of
/// them valid, or the text of the error.
#[verifier::external_body]
pub(crate) fn read_blocks(text: &str) -> (r: Result<Vec<Cidr>, String>)
    ensures
        (match r {
            Ok(list) => Ok(list@),
            Err(e) => Err(e@),
        }) == blocks_reading(text@),
        r matches Ok(list) ==> all_valid(list@),
{
    match serde_json::from_str::<Vec<ipnet::IpNet>>(text) {
        Ok(nets) => Ok(nets.into_iter().map(|net| match net {
            ipnet::IpNet::V4(n) => Cidr { addr: IpAddr::V4(n.addr().into()), prefix: n.prefix_len() },
            ipnet::IpNet::V6(n) => Cidr { addr: IpAddr::V6(n.addr().into()), prefix: n.prefix_len() },
        }).collect()),
        Err(error) => Err(error.to_string()),
    }
}

/// The public port of a row.
pub open spec fn stored_port(row: TunnelRow) -> Option<u16> {
    match row.remote_port {
        Some(p) => Some(p as u16),
        None => None,
    }
}

/// What is wrong with a row, if anything.
pub open spec fn row_fault(row: TunnelRow) -> Option<Seq<char>> {
    if access_value(row.access_mode@) is None {
        Some("invalid access mode in database"@)
    } else if id_value(row.id@) is None {
        Some(id_error(row.id@))
    } else if id_value(row.agent_id@) is None {
        Some(id_error(row.agent_id@))
    } else if kind_value(row.kind@) is None {
        Some("invalid tunnel kind"@)
    } else if scheme_value(row.local_scheme@) is None {
        Some("invalid local scheme"@)
    } else if stored_cidrs(row.allowed_cidrs@) is None {
        Some(blocks_reading(row.allowed_cidrs@)->Err_0)
    } else if time_value(row.created_at@) is None {
        Some(time_error(row.created_at@))
    } else if time_value(row.updated_at@) is None {
        Some(time_error(row.updated_at@))
    } else {
        None
    }
}

/// The state in which a stored tunnel comes back.
pub open spec fn stored_status(enabled: bool) -> TunnelStatus {
    if enabled {
        TunnelStatus::Starting
    } else {
        TunnelStatus::Stopped
    }
}

/// The tunnel that a faultless row holds.
pub open spec fn tunnel_of(row: TunnelRow) -> TunnelView {
    TunnelView {
        id: id_value(row.id@)->0,
        agent_id: id_value(row.agent_id@)->0,
        name: row.name@,
        local_host: row.local_host@,
        local_port: row.local_port as u16,
        kind: kind_value(row.kind@)->0,
        local_scheme: scheme_value(row.local_scheme@)->0,
        remote_port: stored_port(row),
        hostname: opt_text(row.hostname),
        access_mode: access_value(row.access_mode@)->0,
        allowed_cidrs: stored_cidrs(row.allowed_cidrs@)->0,
        enabled: row.enabled,
        status: stored_status(row.enabled),
        created_at: time_value(row.created_at@)->0,
        updated_at: time_value(row.updated_at@)->0,
    }
}

/// Reads a row.
pub fn row_to_tunnel(row: &TunnelRow) -> (r: Result<Tunnel, AppError>)
    ensures
        match row_fault(*row) {
            Some(reason) => r matches Err(e) && fault(e, reason),
            None => r matches Ok(t) && t@ == tunnel_of(*row) && all_valid(t.allowed_cidrs@)
                && t.created_at.valid() && t.updated_at.valid(),
        },
{
    let access_mode = parse_access(row.access_mode.as_str())?;
    let id = match read_id(row.id.as_str()) {
        Ok(id) => id,
        Err(e) => {
            return Err(AppError::Internal(e));
        },
    };
    let agent_id = match read_id(row.agent_id.as_str()) {
        Ok(id) => id,
        Err(e) => {
            return Err(AppError::Internal(e));
        },
    };
    let kind = parse_kind(row.kind.as_str())?;
    let local_scheme = parse_scheme(row.local_scheme.as_str())?;
    let allowed_cidrs = match read_blocks(row.allowed_cidrs.as_str()) {
        Ok(list) => list,
        Err(e) => {
            return Err(AppError::Internal(e));
        },
    };
    let created_at = match read_time(row.created_at.as_str()) {
        Ok(t) => t,
        Err(e) => {
            return Err(AppError::Internal(e));
        },
    };
    let updated_at = match read_time(row.updated_at.as_str()) {
        Ok(t) => t,
        Err(e) => {
            return Err(AppError::Internal(e));
        },
    };
    let remote_port: Option<u16> = match row.remote_port {
        Some(p) => Some(p as u16),
        None => None,
    };
    let status = if row.enabled {
        TunnelStatus::Starting
    } else {
        TunnelStatus::Stopped
    };
    Ok(
        Tunnel {
            id,
            agent_id,
            name: row.name.clone(),
            local_host: row.local_host.clone(),
            local_port: row.local_port as u16,
            kind,
            local_scheme,
            remote_port,
            hostname: copy_opt(&row.hostname),
            access_mode,
            allowed_cidrs,
            enabled: row.enabled,
            status,
            created_at,
            updated_at,
        },
    )
}

/// Whether a row shows a tunnel.
pub open spec fn shows(row: TunnelRow, t: TunnelView) -> bool {
    &&& row.id@ == id_text(t.id)
    &&& row.agent_id@ == id_text(t.agent_id)
    &&& row.name@ == t.name
    &&& row.local_host@ == t.local_host
    &&& row.local_port == t.local_port
    &&& row.kind@ == kind_text(t.kind)
    &&& row.local_scheme@ == scheme_text(t.local_scheme)
    &&& (match (row.remote_port, t.remote_port) {
        (Some(p), Some(q)) => p == q,
        (None, None) => true,
        _ => false,
    })
    &&& opt_text(row.hostname) == t.hostname
    &&& row.access_mode@ == access_text(t.access_mode)
    &&& row.allowed_cidrs@ == blocks_text(t.allowed_cidrs)
    &&& row.enabled == t.enabled
    &&& row.created_at@ == time_text(t.created_at)
    &&& row.updated_at@ == time_text(t.updated_at)
}

/// Whether a row gives a tunnel back, in the state of a stored one.
pub open spec fn gives_back(row: TunnelRow, t: TunnelView) -> bool {
    row_fault(row) is None && tunnel_of(row) == TunnelView { status: stored_status(t.enabled), ..t }
}

/// A row that is written over by another: its identifiers, its kind and the time of its creation
/// stay.
pub open spec fn written_over(old_row: TunnelRow, row: TunnelRow) -> TunnelRow {
    TunnelRow {
        id: old_row.id,
        agent_id: old_row.agent_id,
        kind: old_row.kind,
        created_at: old_row.created_at,
        ..row
    }
}

/// Whether a row holds a tunnel with the identifiers, the kind and the time of creation of another.
pub open spec fn same_origin(row: TunnelRow, t: TunnelView) -> bool {
    let u = tunnel_of(row);
    row_fault(row) is None && u.id == t.id && u.agent_id == t.agent_id && u.kind == t.kind
        && u.created_at == t.created_at
}

/// Writes a tunnel as a row. Reading the row gives the tunnel back, where its times lie in the
/// years 0 to 9999; so does reading the row that it is written over, whenever that was made.
pub fn tunnel_row(tunnel: &Tunnel) -> (r: TunnelRow)
    requires
        all_valid(tunnel.allowed_cidrs@),
        tunnel.created_at.valid(),
        tunnel.updated_at.valid(),
    ensures
        shows(r, tunnel@),
        tunnel.created_at.four_digit_year() && tunnel.updated_at.four_digit_year() ==> gives_back(
            r,
            tunnel@,
        ),
        forall|old_row: TunnelRow|
            tunnel.updated_at.four_digit_year() && same_origin(old_row, tunnel@) ==> gives_back(
                #[trigger] written_over(old_row, r),
                tunnel@,
            ),
{
    proof {
        crate::tunnels::law_stored_names(tunnel.access_mode, tunnel.kind, tunnel.local_scheme);
    }
    let remote_port: Option<i64> = match tunnel.remote_port {
        Some(p) => Some(p as i64),
        None => None,
    };
    TunnelRow {
        id: write_id(tunnel.id),
        agent_id: write_id(tunnel.agent_id),
        name: tunnel.name.clone(),
        local_host: tunnel.local_host.clone(),
        local_port: tunnel.local_port as i64,
        kind: kind_str(tunnel.kind).to_owned(),
        local_scheme: scheme_str(tunnel.local_scheme).to_owned(),
        remote_port,
        hostname: copy_opt(&tunnel.hostname),
        access_mode: access_mode_str(tunnel.access_mode).to_owned(),
        allowed_cidrs: write_blocks(&tunnel.allowed_cidrs),
        enabled: tunnel.enabled,
        created_at: write_time(tunnel.created_at),
        updated_at: write_time(tunnel.updated_at),
    }
}

/// The tunnels that rows hold, or what is wrong with the first faulty row.
pub open spec fn decoded(rows: Seq<TunnelRow>) -> Result<Seq<TunnelView>, Seq<char>>
    decreases rows.len(),
{
    if rows.len() == 0 {
        Ok(Seq::empty())
    } else {
        match decoded(rows.drop_last()) {
            Err(reason) => Err(reason),
            Ok(list) => match row_fault(rows.last()) {
                Some(reason) => Err(reason),
                None => Ok(list.push(tunnel_of(rows.last()))),
            },
        }
    }
}

/// The rows of an agent.
pub open spec fn rows_of(rows: Seq<TunnelRow>, agent_id: u128) -> Seq<TunnelRow>
    decreases rows.len(),
{
    if rows.len() == 0 {
        Seq::empty()
    } else if rows.last().agent_id@ == id_text(agent_id) {
        rows_of(rows.drop_last(), agent_id).push(rows.last())
    } else {
        rows_of(rows.drop_last(), agent_id)
    }
}

/// Whether every tunnel of a list is in good form.
pub open spec fn sound(list: Seq<Tunnel>) -> bool {
    forall|i: int|
        0 <= i < list.len() ==> all_valid((#[trigger] list[i]).allowed_cidrs@)
            && list[i].created_at.valid() && list[i].updated_at.valid()
}

/// Whether a result holds what rows hold, or the fault of the first faulty row.
pub open spec fn answers(r: Result<Vec<Tunnel>, AppError>, rows: Seq<TunnelRow>) -> bool {
    match decoded(rows) {
        Ok(list) => r matches Ok(v) && tunnel_views(v@) == list && sound(v@),
        Err(reason) => r matches Err(e) && fault(e, reason),
    }
}

proof fn lemma_decoded_stops(rows: Seq<TunnelRow>, i: int)
    requires
        0 <= i <= rows.len(),
        decoded(rows.take(i)) is Err,
    ensures
        decoded(rows) == decoded(rows.take(i)),
    decreases rows.len(),
{
    if i == rows.len() {
        assert(rows.take(i) =~= rows);
    } else {
        assert(rows.drop_last().take(i) =~= rows.take(i));
        lemma_decoded_stops(rows.drop_last(), i);
    }
}

proof fn lemma_rows_prefix(rows: Seq<TunnelRow>, agent_id: u128, i: int)
    requires
        0 <= i <= rows.len(),
    ensures
        rows_of(rows.take(i), agent_id).len() <= rows_of(rows, agent_id).len(),
        rows_of(rows, agent_id).take(rows_of(rows.take(i), agent_id).len() as int) == rows_of(
            rows.take(i),
            agent_id,
        ),
    decreases rows.len(),
{
    if i == rows.len() {
        assert(rows.take(i) =~= rows);
        let all = rows_of(rows, agent_id);
        assert(all.take(all.len() as int) =~= all);
    } else {
        let start = rows.drop_last();
        assert(start.take(i) =~= rows.take(i));
        lemma_rows_prefix(start, agent_id, i);
        let n = rows_of(rows.take(i), agent_id).len() as int;
        assert(rows_of(rows, agent_id).take(n) =~= rows_of(start, agent_id).take(n));
    }
}

/// All tunnels, in the order of the rows.
pub fn list_all(rows: &Vec<TunnelRow>) -> (r: Result<Vec<Tunnel>, AppError>)
    ensures
        answers(r, rows@),
{
    let mut out: Vec<Tunnel> = Vec::new();
    let mut i: usize = 0;
    assert(rows@.take(0) =~= Seq::<TunnelRow>::empty());
    assert(tunnel_views(out@) =~= Seq::<TunnelView>::empty());
    while i < rows.len()
        invariant
            i <= rows@.len(),
            decoded(rows@.take(i as int)) == Ok::<Seq<TunnelView>, Seq<char>>(tunnel_views(out@)),
            sound(out@),
        decreases rows@.len() - i,
    {
        let ghost done = tunnel_views(out@);
        assert(rows@.take(i + 1).drop_last() =~= rows@.take(i as int));
        match row_to_tunnel(&rows[i]) {
            Ok(tunnel) => {
                out.push(tunnel);
                assert(tunnel_views(out@) =~= done.push(tunnel@));
            },
            Err(e) => {
                proof {
                    lemma_decoded_stops(rows@, i + 1);
                }
                return Err(e);
            },
        }
        i += 1;
    }
    assert(rows@.take(i as int) =~= rows@);
    Ok(out)
}

/// The tunnels of an agent, in the order of the rows.
pub fn list_for_agent(rows: &Vec<TunnelRow>, agent_id: u128) -> (r: Result<Vec<Tunnel>, AppError>)
    ensures
        answers(r, rows_of(rows@, agent_id)),
{
    let key = write_id(agent_id);
    let mut out: Vec<Tunnel> = Vec::new();
    let mut i: usize = 0;
    assert(rows@.take(0) =~= Seq::<TunnelRow>::empty());
    assert(tunnel_views(out@) =~= Seq::<TunnelView>::empty());
    while i < rows.len()
        invariant
            i <= rows@.len(),
            key@ == id_text(agent_id),
            decoded(rows_of(rows@.take(i as int), agent_id)) == Ok::<Seq<TunnelView>, Seq<char>>(
                tunnel_views(out@),
            ),
            sound(out@),
        decreases rows@.len() - i,
    {
        let ghost done = tunnel_views(out@);
        let ghost before = rows_of(rows@.take(i as int), agent_id);
        assert(rows@.take(i + 1).drop_last() =~= rows@.take(i as int));
        if text::same(rows[i].agent_id.as_str(), key.as_str()) {
            let ghost now = rows_of(rows@.take(i + 1), agent_id);
            assert(now == before.push(rows@[i as int]));
            assert(now.drop_last() =~= before);
            match row_to_tunnel(&rows[i]) {
                Ok(tunnel) => {
                    out.push(tunnel);
                    assert(tunnel_views(out@) =~= done.push(tunnel@));
                },
                Err(e) => {
                    proof {
                        lemma_rows_prefix(rows@, agent_id, i + 1);
                        lemma_decoded_stops(rows_of(rows@, agent_id), now.len() as int);
                    }
                    return Err(e);
                },
            }
        }
        i += 1;
    }
    assert(rows@.take(i as int) =~= rows@);
    Ok(out)
}

/// The place of the row with an identifier, or the number of rows.
pub open spec fn row_place(rows: Seq<TunnelRow>, id: u128) -> nat
    decreases rows.len(),
{
    if rows.len() == 0 || rows[0].id@ == id_text(id) {
        0
    } else {
        1 + row_place(rows.skip(1), id)
    }
}

/// Whether a result is the tunnel in the row at a place, the fault of that row, or that there is
/// no such row.
pub open spec fn answers_one(
    r: Result<Tunnel, AppError>,
    rows: Seq<TunnelRow>,
    place: nat,
) -> bool {
    if place < rows.len() {
        match row_fault(rows[place as int]) {
            Some(reason) => r matches Err(e) && fault(e, reason),
            None => r matches Ok(t) && t@ == tunnel_of(rows[place as int]) && all_valid(
                t.allowed_cidrs@,
            ) && t.created_at.valid() && t.updated_at.valid(),
        }
    } else {
        r == Err::<Tunnel, AppError>(AppError::NotFound)
    }
}

/// The tunnel with an identifier.
pub fn get(rows: &Vec<TunnelRow>, id: u128) -> (r: Result<Tunnel, AppError>)
    ensures
        answers_one(r, rows@, row_place(rows@, id)),
        r matches Ok(t) ==> t.id == id,
{
    let key = write_id(id);
    let mut i: usize = 0;
    assert(rows@.skip(0) =~= rows@);
    while i < rows.len()
        invariant
            i <= rows@.len(),
            key@ == id_text(id),
            id_value(key@) == Some(id),
            row_place(rows@, id) == i + row_place(rows@.skip(i as int), id),
        decreases rows@.len() - i,
    {
        assert(rows@.skip(i as int)[0] == rows@[i as int]);
        assert(rows@.skip(i as int).skip(1) =~= rows@.skip(i + 1));
        if text::same(rows[i].id.as_str(), key.as_str()) {
            let found = row_to_tunnel(&rows[i]);
            assert(found matches Ok(t) ==> t@.id == id);
            return found;
        }
        i += 1;
    }
    Err(AppError::NotFound)
}

/// Whether a row holds an enabled web tunnel with a host name, whatever the case of its letters and
/// the dots behind it.
pub open spec fn serves_host(row: TunnelRow, hostname: Seq<char>) -> bool {
    &&& row.kind@ == "web"@
    &&& row.enabled
    &&& row.hostname matches Some(h) && text::lower(h@) == text::lower(
        text::trim_end_char(hostname, '.'),
    )
}

/// The place of the first row that serves a host name, or the number of rows.
pub open spec fn host_place(rows: Seq<TunnelRow>, hostname: Seq<char>) -> nat
    decreases rows.len(),
{
    if rows.len() == 0 || serves_host(rows[0], hostname) {
        0
    } else {
        1 + host_place(rows.skip(1), hostname)
    }
}

/// How many rows serve a host name.
pub open spec fn host_count(rows: Seq<TunnelRow>, hostname: Seq<char>) -> nat
    decreases rows.len(),
{
    if rows.len() == 0 {
        0
    } else if serves_host(rows.last(), hostname) {
        host_count(rows.drop_last(), hostname) + 1
    } else {
        host_count(rows.drop_last(), hostname)
    }
}

/// Whether a row serves a host name that is in lower case and without dots behind it.
fn serves(row: &TunnelRow, hostname: &str, key: &str) -> (r: bool)
    requires
        key@ == text::lower(text::trim_end_char(hostname@, '.')),
    ensures
        r == serves_host(*row, hostname@),
{
    if !text::same(row.kind.as_str(), "web") || !row.enabled {
        return false;
    }
    match &row.hostname {
        Some(h) => text::same(text::to_lower(h.as_str()).as_str(), key),
        None => false,
    }
}

/// The enabled web tunnel with a host name.
pub fn get_by_hostname(rows: &Vec<TunnelRow>, hostname: &str) -> (r: Result<Tunnel, AppError>)
    ensures
        answers_one(r, rows@, host_place(rows@, hostname@)),
{
    let key = text::to_lower(text::trim_end_matches(hostname, '.'));
    let mut i: usize = 0;
    assert(rows@.skip(0) =~= rows@);
    while i < rows.len()
        invariant
            i <= rows@.len(),
            key@ == text::lower(text::trim_end_char(hostname@, '.')),
            host_place(rows@, hostname@) == i + host_place(rows@.skip(i as int), hostname@),
        decreases rows@.len() - i,
    {
        assert(rows@.skip(i as int)[0] == rows@[i as int]);
        assert(rows@.skip(i as int).skip(1) =~= rows@.skip(i + 1));
        if serves(&rows[i], hostname, key.as_str()) {
            return row_to_tunnel(&rows[i]);
        }
        i += 1;
    }
    Err(AppError::NotFound)
}

/// Whether just one enabled web tunnel has a host name.
pub fn hostname_is_enabled(rows: &Vec<TunnelRow>, hostname: &str) -> (r: bool)
    ensures
        r == (host_count(rows@, hostname@) == 1),
{
    let key = text::to_lower(text::trim_end_matches(hostname, '.'));
    let mut count: usize = 0;
    let mut i: usize = 0;
    assert(rows@.take(0) =~= Seq::<TunnelRow>::empty());
    while i < rows.len()
        invariant
            i <= rows@.len(),
            count <= i,
            key@ == text::lower(text::trim_end_char(hostname@, '.')),
            count == host_count(rows@.take(i as int), hostname@),
        decreases rows@.len() - i,
    {
        assert(rows@.take(i + 1).drop_last() =~= rows@.take(i as int));
        if serves(&rows[i], hostname, key.as_str()) {
            count += 1;
        }
        i += 1;
    }
    assert(rows@.take(i as int) =~= rows@);
    count == 1
}

/// A row is read column by column: each part of the tunnel is what its own column says, the numbers
/// as they stand where they are ports. A tunnel that is enabled is about to start, another is
/// stopped.
pub proof fn law_rows_are_read_by_column(row: TunnelRow)
    requires
        row_fault(row) is None,
    ensures
        id_value(row.id@) == Some(tunnel_of(row).id),
        id_value(row.agent_id@) == Some(tunnel_of(row).agent_id),
        tunnel_of(row).name == row.name@,
        tunnel_of(row).local_host == row.local_host@,
        0 <= row.local_port <= 65535 ==> tunnel_of(row).local_port == row.local_port,
        row.remote_port is None ==> tunnel_of(row).remote_port is None,
        row.remote_port matches Some(p) ==> 0 <= p <= 65535 ==> tunnel_of(row).remote_port == Some(
            p as u16,
        ),
        row.hostname is None ==> tunnel_of(row).hostname is None,
        row.hostname matches Some(h) ==> tunnel_of(row).hostname == Some(h@),
        tunnel_of(row).enabled == row.enabled,
        row.enabled ==> tunnel_of(row).status == TunnelStatus::Starting,
        !row.enabled ==> tunnel_of(row).status == TunnelStatus::Stopped,
        row.kind@ == "tcp"@ || row.kind@ == "udp"@ || row.kind@ == "web"@,
        row.kind@ == "tcp"@ ==> tunnel_of(row).kind == TunnelKind::Tcp,
        row.kind@ == "udp"@ ==> tunnel_of(row).kind == TunnelKind::Udp,
        row.kind@ == "web"@ ==> tunnel_of(row).kind == TunnelKind::Web,
        row.local_scheme@ == "tcp"@ ==> tunnel_of(row).local_scheme == LocalScheme::Tcp,
        row.local_scheme@ == "udp"@ ==> tunnel_of(row).local_scheme == LocalScheme::Udp,
        row.local_scheme@ == "http"@ ==> tunnel_of(row).local_scheme == LocalScheme::Http,
        row.local_scheme@ == "https"@ ==> tunnel_of(row).local_scheme == LocalScheme::Https,
        row.access_mode@ == "public"@ || row.access_mode@ == "allowlist"@,
        row.access_mode@ == "public"@ ==> tunnel_of(row).access_mode == AccessMode::Public,
        row.access_mode@ == "allowlist"@ ==> tunnel_of(row).access_mode == AccessMode::Allowlist,
        blocks_reading(row.allowed_cidrs@) matches Ok(list) && list == tunnel_of(row).allowed_cidrs,
        time_value(row.created_at@) == Some(tunnel_of(row).created_at),
        time_value(row.updated_at@) == Some(tunnel_of(row).updated_at),
{
    reveal_strlit("allowlist");
    reveal_strlit("public");
    reveal_strlit("tcp");
    reveal_strlit("udp");
    reveal_strlit("web");
    reveal_strlit("http");
    reveal_strlit("https");
    assert("allowlist"@.len() != "public"@.len());
    assert("tcp"@[0] != "udp"@[0]);
    assert("tcp"@[0] != "web"@[0]);
    assert("udp"@[0] != "web"@[0]);
    assert("tcp"@.len() != "http"@.len());
    assert("udp"@.len() != "http"@.len());
    assert("tcp"@.len() != "https"@.len());
    assert("udp"@.len() != "https"@.len());
    assert("http"@.len() != "https"@.len());
}

/// A list of tunnels has one for each row, in the order of the rows; there is none where a row cannot
/// be read.
pub proof fn law_lists_follow_their_rows(rows: Seq<TunnelRow>)
    ensures
        decoded(rows) is Ok <==> forall|i: int|
            0 <= i < rows.len() ==> row_fault(#[trigger] rows[i]) is None,
        decoded(rows) matches Ok(list) ==> list.len() == rows.len() && forall|i: int|
            0 <= i < rows.len() ==> #[trigger] list[i] == tunnel_of(rows[i]),
    decreases rows.len(),
{
    if rows.len() > 0 {
        let start = rows.drop_last();
        law_lists_follow_their_rows(start);
        assert(rows.last() == rows[rows.len() - 1]);
        if decoded(start) is Ok && row_fault(rows.last()) is None {
            assert forall|i: int| 0 <= i < rows.len() implies row_fault(
                #[trigger] rows[i],
            ) is None by {
                if i < start.len() {
                    assert(rows[i] == start[i]);
                }
            }
        }
        if forall|i: int| 0 <= i < rows.len() ==> row_fault(#[trigger] rows[i]) is None {
            assert forall|i: int| 0 <= i < start.len() implies row_fault(
                #[trigger] start[i],
            ) is None by {
                assert(start[i] == rows[i]);
            }
        }
        if decoded(rows) is Ok {
            let list = decoded(rows)->Ok_0;
            let head = decoded(start)->Ok_0;
            assert forall|i: int| 0 <= i < rows.len() implies #[trigger] list[i] == tunnel_of(
                rows[i],
            ) by {
                if i < start.len() {
                    assert(list[i] == head[i]);
                    assert(start[i] == rows[i]);
                }
            }
        }
    }
}

/// The rows of an agent are those that name it, each of them, in order, and no others.
pub proof fn law_agents_have_their_own_rows(a: Seq<TunnelRow>, row: TunnelRow, agent_id: u128)
    ensures
        rows_of(Seq::empty(), agent_id) == Seq::<TunnelRow>::empty(),
        row.agent_id@ == id_text(agent_id) ==> rows_of(a.push(row), agent_id) == rows_of(
            a,
            agent_id,
        ).push(row),
        row.agent_id@ != id_text(agent_id) ==> rows_of(a.push(row), agent_id) == rows_of(
            a,
            agent_id,
        ),
{
    assert(a.push(row).drop_last() =~= a);
}

/// A row serves a host name where it is that of an enabled web tunnel with this name, whatever the
/// case of its letters; dots behind the name do not matter. No other row does.
pub proof fn law_rows_serve_their_host(row: TunnelRow, hostname: Seq<char>)
    ensures
        row.kind@ != "web"@ || !row.enabled || row.hostname is None ==> !serves_host(row, hostname),
        row.kind@ == "web"@ && row.enabled && row.hostname is Some ==> {
            let h = row.hostname->0@;
            &&& h == hostname && (h.len() > 0 ==> h.last() != '.') ==> serves_host(row, hostname)
            &&& serves_host(row, hostname.push('.')) == serves_host(row, hostname)
            &&& (hostname.len() > 0 ==> hostname.last() != '.') && text::lower(h) != text::lower(
                hostname,
            ) ==> !serves_host(row, hostname)
        },
{
    assert(hostname.push('.').drop_last() =~= hostname);
}

/// A row shows each part of its tunnel in its own column.
pub proof fn law_rows_show_their_tunnel(row: TunnelRow, t: TunnelView)
    requires
        shows(row, t),
    ensures
        row.id@ == id_text(t.id) && row.agent_id@ == id_text(t.agent_id),
        row.name@ == t.name && row.local_host@ == t.local_host && row.local_port == t.local_port,
        t.kind == TunnelKind::Tcp ==> row.kind@ == "tcp"@,
        t.kind == TunnelKind::Udp ==> row.kind@ == "udp"@,
        t.kind == TunnelKind::Web ==> row.kind@ == "web"@,
        t.local_scheme == LocalScheme::Http ==> row.local_scheme@ == "http"@,
        t.local_scheme == LocalScheme::Https ==> row.local_scheme@ == "https"@,
        t.local_scheme == LocalScheme::Tcp ==> row.local_scheme@ == "tcp"@,
        t.local_scheme == LocalScheme::Udp ==> row.local_scheme@ == "udp"@,
        t.access_mode == AccessMode::Public ==> row.access_mode@ == "public"@,
        t.access_mode == AccessMode::Allowlist ==> row.access_mode@ == "allowlist"@,
        t.remote_port matches Some(p) ==> row.remote_port == Some(p as i64),
        t.remote_port is None ==> row.remote_port is None,
        opt_text(row.hostname) == t.hostname,
        row.enabled == t.enabled,
        row.allowed_cidrs@ == blocks_text(t.allowed_cidrs),
        row.created_at@ == time_text(t.created_at) && row.updated_at@ == time_text(t.updated_at),
{
}

/// A row that gives a tunnel back can be read, and what is read is that tunnel, part for part; only its
/// state is that of a stored one.
pub proof fn law_rows_give_their_tunnel_back(row: TunnelRow, t: TunnelView)
    requires
        gives_back(row, t),
    ensures
        row_fault(row) is None,
        ({
            let u = tunnel_of(row);
            &&& u.id == t.id && u.agent_id == t.agent_id && u.name == t.name
            &&& u.local_host == t.local_host && u.local_port == t.local_port && u.kind == t.kind
            &&& u.local_scheme == t.local_scheme && u.remote_port == t.remote_port
            &&& u.hostname == t.hostname && u.access_mode == t.access_mode
            &&& u.allowed_cidrs == t.allowed_cidrs && u.enabled == t.enabled
            &&& u.created_at == t.created_at && u.updated_at == t.updated_at
        }),
{
}

/// The row that is taken for an identifier or a host name is the first that has it: no row in front of it
/// has, and where none has, none is taken.
pub proof fn law_the_first_row_is_taken(rows: Seq<TunnelRow>, id: u128, hostname: Seq<char>, i: int)
    ensures
        row_place(rows, id) <= rows.len(),
        0 <= i < row_place(rows, id) ==> rows[i].id@ != id_text(id),
        i == row_place(rows, id) < rows.len() ==> rows[i].id@ == id_text(id),
        host_place(rows, hostname) <= rows.len(),
        0 <= i < host_place(rows, hostname) ==> !serves_host(rows[i], hostname),
        i == host_place(rows, hostname) < rows.len() ==> serves_host(rows[i], hostname),
    decreases rows.len(),
{
    if rows.len() > 0 {
        law_the_first_row_is_taken(rows.skip(1), id, hostname, i - 1);
    }
}

/// Each row that serves a host name is counted once, and no other row.
pub proof fn law_rows_are_counted(rows: Seq<TunnelRow>, row: TunnelRow, hostname: Seq<char>)
    ensures
        host_count(Seq::empty(), hostname) == 0,
        serves_host(row, hostname) ==> host_count(rows.push(row), hostname) == host_count(
            rows,
            hostname,
        ) + 1,
        !serves_host(row, hostname) ==> host_count(rows.push(row), hostname) == host_count(
            rows,
            hostname,
        ),
{
    assert(rows.push(row).drop_last() =~= rows);
}

/// A row that is written over stays that of its tunnel, of its agent, of its kind and of the time of its
/// creation, and takes over all else.
pub proof fn law_written_rows_keep_their_origin(old_row: TunnelRow, row: TunnelRow)
    ensures
        ({
            let w = written_over(old_row, row);
            &&& w.id == old_row.id && w.agent_id == old_row.agent_id && w.kind == old_row.kind
            &&& w.created_at == old_row.created_at && w.updated_at == row.updated_at
            &&& w.name == row.name && w.local_host == row.local_host
            &&& w.local_port == row.local_port && w.local_scheme == row.local_scheme
            &&& w.remote_port == row.remote_port && w.hostname == row.hostname
            &&& w.access_mode == row.access_mode && w.allowed_cidrs == row.allowed_cidrs
            &&& w.enabled == row.enabled
        }),
{
}

/// A row of the same origin as a tunnel can be read, and has its identifiers, its kind and the time of
/// its creation.
pub proof fn law_origins_are_the_same(row: TunnelRow, t: TunnelView)
    requires
        same_origin(row, t),
    ensures
        row_fault(row) is None,
        id_value(row.id@) == Some(t.id),
        id_value(row.agent_id@) == Some(t.agent_id),
        tunnel_of(row).kind == t.kind,
        time_value(row.created_at@) == Some(t.created_at),
{
}

/// What is wrong with a row is told by the first column that cannot be read.
pub proof fn law_faulty_columns_are_told(row: TunnelRow)
    ensures
        row.access_mode@ != "public"@ && row.access_mode@ != "allowlist"@ ==> row_fault(row) == Some(
            "invalid access mode in database"@,
        ),
        access_value(row.access_mode@) is Some && id_value(row.id@) is None ==> row_fault(row)
            == Some(id_error(row.id@)),
        access_value(row.access_mode@) is Some && id_value(row.id@) is Some && id_value(
            row.agent_id@,
        ) is Some && kind_value(row.kind@) is None ==> row_fault(row) == Some(
            "invalid tunnel kind"@,
        ),
        access_value(row.access_mode@) is Some && id_value(row.id@) is Some && id_value(
            row.agent_id@,
        ) is Some && kind_value(row.kind@) is Some && scheme_value(row.local_scheme@) is None
            ==> row_fault(row) == Some("invalid local scheme"@),
        row_fault(row) is None ==> id_value(row.id@) is Some && id_value(row.agent_id@) is Some
            && time_value(row.created_at@) is Some && time_value(row.updated_at@) is Some,
{
}

/// What is answered for a place is the tunnel of the row there, or what is wrong with that row; behind
/// the last row there is nothing.
pub proof fn law_answers_are_those_of_the_row(
    r: Result<Tunnel, AppError>,
    rows: Seq<TunnelRow>,
    place: nat,
)
    requires
        answers_one(r, rows, place),
    ensures
        r is Ok <==> place < rows.len() && row_fault(rows[place as int]) is None,
        r matches Ok(t) ==> t@ == tunnel_of(rows[place as int]),
        place >= rows.len() ==> (r matches Err(e) && e.status() == 404),
        place < rows.len() && r is Err ==> r->Err_0.status() == 500 && Some(r->Err_0.described())
            == row_fault(rows[place as int]),
{
}

/// A list that is answered holds the tunnel of each row, and one that is not tells what is wrong with a
/// row.
pub proof fn law_lists_are_answered(r: Result<Vec<Tunnel>, AppError>, rows: Seq<TunnelRow>, i: int)
    requires
        answers(r, rows),
    ensures
        r is Ok <==> decoded(rows) is Ok,
        r matches Ok(v) ==> (decoded(rows) matches Ok(list) && v@.len() == list.len() && (0 <= i
            < v@.len() ==> v@[i]@ == list[i])),
        r matches Err(e) ==> e.status() == 500 && decoded(rows) == Err::<
            Seq<TunnelView>,
            Seq<char>,
        >(e.described()),
{
    if let Ok(v) = r {
        assert(tunnel_views(v@).len() == v@.len());
        if 0 <= i < v@.len() {
            assert(tunnel_views(v@)[i] == v@[i]@);
        }
    }
}

} // verus!
