//! The database of the relay: where it lies, how it is brought up to date, and its first
//! administrator.
use crate::api::long_enough;
use crate::protocol::{LocalScheme, TunnelKind};
use crate::rows::{stored_port, strings, TunnelRow};
use crate::secrets::{hash_of, hash_password, hashable};
use crate::text;
use crate::tunnels::{kind_value, scheme_value};
use vstd::prelude::*;

verus! {

/// The file of a database URL: what stands between `sqlite://` and the first question mark.
pub open spec fn database_file(url: Seq<char>) -> Option<Seq<char>> {
    if text::has_prefix(url, "sqlite://"@) {
        Some(text::before(url.skip("sqlite://"@.len() as int), '?'))
    } else {
        None
    }
}

/// The file of a database URL.
pub fn database_path(url: &str) -> (r: Option<String>)
    ensures
        crate::protocol::opt_text(r) == database_file(url@),
{
    match text::strip_prefix(url, "sqlite://") {
        Some(rest) => Some(text::take_before(rest, '?').to_owned()),
        None => None,
    }
}

/// What to do about the tunnel table.
#[derive(Debug, Clone, Copy, PartialEq, Eq, Structural)]
pub enum Migration {
    /// There is no table: create it.
    Create,
    /// The table is up to date: see to its indexes.
    Keep,
    /// The table knows TCP tunnels alone: carry its rows over.
    Upgrade,
}

/// Whether a column is among those of a table.
pub open spec fn has_column(columns: Seq<String>, name: Seq<char>) -> bool {
    exists|i: int| 0 <= i < columns.len() && (#[trigger] columns[i])@ == name
}

/// What to do about the tunnel table, given how many tables of that name there are and the columns
/// of the table.
pub open spec fn migration(tables: int, columns: Seq<String>) -> Migration {
    if tables == 0 {
        Migration::Create
    } else if has_column(columns, "kind"@) {
        Migration::Keep
    } else {
        Migration::Upgrade
    }
}

/// What to do about the tunnel table, given how many tables of that name there are and the columns
/// of the table.
pub fn migrate_tunnels_v2(tables: i64, columns: &Vec<String>) -> (r: Migration)
    ensures
        r == migration(tables as int, columns@),
{
    if tables == 0 {
        return Migration::Create;
    }
    let mut i: usize = 0;
    while i < columns.len()
        invariant
            i <= columns@.len(),
            tables != 0,
            forall|k: int| 0 <= k < i ==> (#[trigger] columns@[k])@ != "kind"@,
        decreases columns@.len() - i,
    {
        if text::same(columns[i].as_str(), "kind") {
            return Migration::Keep;
        }
        i += 1;
    }
    Migration::Upgrade
}

/// A row of the tunnel table before there were kinds of tunnels.
#[derive(Debug, Clone, PartialEq, Eq)]
pub struct TcpTunnelRow {
    pub id: String,
    pub agent_id: String,
    pub name: String,
    pub local_host: String,
    pub local_port: i64,
    pub remote_port: i64,
    pub access_mode: String,
    pub allowed_cidrs: String,
    pub enabled: bool,
    pub created_at: String,
    pub updated_at: String,
}

/// Whether a row was carried over: it holds a TCP tunnel at the same endpoint, and all that the
/// other held.
pub open spec fn upgraded(old_row: TcpTunnelRow, row: TunnelRow) -> bool {
    &&& row.id == old_row.id
    &&& row.agent_id == old_row.agent_id
    &&& row.name == old_row.name
    &&& row.local_host == old_row.local_host
    &&& row.local_port == old_row.local_port
    &&& row.kind@ == "tcp"@
    &&& row.local_scheme@ == "tcp"@
    &&& row.remote_port == Some(old_row.remote_port)
    &&& row.hostname is None
    &&& row.access_mode == old_row.access_mode
    &&& row.allowed_cidrs == old_row.allowed_cidrs
    &&& row.enabled == old_row.enabled
    &&& row.created_at == old_row.created_at
    &&& row.updated_at == old_row.updated_at
}

/// Carries a row over: a TCP tunnel at the same endpoint.
pub fn upgrade_row(row: TcpTunnelRow) -> (r: TunnelRow)
    ensures
        upgraded(row, r),
{
    TunnelRow {
        id: row.id,
        agent_id: row.agent_id,
        name: row.name,
        local_host: row.local_host,
        local_port: row.local_port,
        kind: "tcp".to_owned(),
        local_scheme: "tcp".to_owned(),
        remote_port: Some(row.remote_port),
        hostname: None,
        access_mode: row.access_mode,
        allowed_cidrs: row.allowed_cidrs,
        enabled: row.enabled,
        created_at: row.created_at,
        updated_at: row.updated_at,
    }
}

/// Whether a table was carried over: row by row, in order, with none added and none left out.
pub open spec fn carried_over(old_rows: Seq<TcpTunnelRow>, rows: Seq<TunnelRow>) -> bool {
    &&& rows.len() == old_rows.len()
    &&& forall|i: int| 0 <= i < rows.len() ==> upgraded(old_rows[i], #[trigger] rows[i])
}

/// Carries the rows of a table over.
pub fn upgrade_rows(rows: Vec<TcpTunnelRow>) -> (r: Vec<TunnelRow>)
    ensures
        carried_over(rows@, r@),
{
    let mut out: Vec<TunnelRow> = Vec::new();
    for row in it: rows
        invariant
            it.seq() == rows@,
            carried_over(rows@.take(it.index() as int), out@),
    {
        out.push(upgrade_row(row));
        assert(rows@.take(it.index() + 1) =~= rows@.take(it.index() as int).push(row));
    }
    assert(rows@.take(rows@.len() as int) =~= rows@);
    out
}

/// The hash to store for the first administrator, given how many there are. Nothing where there is
/// one already.
pub fn bootstrap_admin(existing: i64, password: Option<&str>) -> (r: Result<Option<String>, String>)
    ensures
        match (existing > 0, password) {
            (true, _) => r matches Ok(None),
            (false, None) => r matches Err(e) && e@
                == "first launch requires TB_ADMIN_PASSWORD (minimum 12 characters)"@,
            (false, Some(password)) => if !long_enough(password@) {
                r matches Err(e) && e@ == "TB_ADMIN_PASSWORD must contain at least 12 characters"@
            } else {
                match r {
                    Ok(Some(hash)) => hashable(password@) && hash_of(hash@, password@),
                    Ok(None) => false,
                    Err(e) => !hashable(password@) && e@ == "invalid password"@,
                }
            },
        },
        bootstraps(r, existing, match password {
            Some(password) => Some(password@),
            None => None,
        }),
{
    if existing > 0 {
        return Ok(None);
    }
    let password = match password {
        Some(password) => password,
        None => {
            return Err(
                "first launch requires TB_ADMIN_PASSWORD (minimum 12 characters)".to_owned(),
            );
        },
    };
    if password.unicode_len() < 12 {
        return Err("TB_ADMIN_PASSWORD must contain at least 12 characters".to_owned());
    }
    match hash_password(password) {
        Ok(hash) => Ok(Some(hash)),
        Err(e) => Err(e.describe()),
    }
}

/// A table that was carried over keeps the endpoints of its tunnels: behind each identifier stands
/// the same public port of the same agent, as a TCP tunnel to the same target.
pub proof fn law_upgrades_keep_endpoints(
    old_rows: Seq<TcpTunnelRow>,
    rows: Seq<TunnelRow>,
    i: int,
)
    requires
        carried_over(old_rows, rows),
        0 <= i < old_rows.len(),
    ensures
        rows[i].id == old_rows[i].id,
        rows[i].agent_id == old_rows[i].agent_id,
        stored_port(rows[i]) == Some(old_rows[i].remote_port as u16),
        kind_value(rows[i].kind@) == Some(TunnelKind::Tcp),
        scheme_value(rows[i].local_scheme@) == Some(LocalScheme::Tcp),
        rows[i].local_host == old_rows[i].local_host,
        rows[i].local_port == old_rows[i].local_port,
{
    assert(upgraded(old_rows[i], rows[i]));
}

/// What two rows must not have in common before there were kinds of tunnels: the identifier, and the
/// public port.
pub open spec fn distinct(old_rows: Seq<TcpTunnelRow>) -> bool {
    forall|i: int, j: int|
        0 <= i < j < old_rows.len() ==> #[trigger] old_rows[i].id@ != #[trigger] old_rows[j].id@
            && old_rows[i].remote_port != old_rows[j].remote_port
}

/// A table that was carried over meets the unique indexes of the new one.
pub proof fn law_upgrades_are_unique(old_rows: Seq<TcpTunnelRow>, rows: Seq<TunnelRow>)
    requires
        carried_over(old_rows, rows),
        distinct(old_rows),
    ensures
        crate::table::unique(rows),
{
    reveal_strlit("tcp");
    reveal_strlit("web");
    assert("tcp"@[0] != "web"@[0]);
    assert forall|i: int, j: int| 0 <= i < j < rows.len() implies !crate::table::collide(
        #[trigger] rows[i],
        #[trigger] rows[j],
    ) by {
        assert(upgraded(old_rows[i], rows[i]));
        assert(upgraded(old_rows[j], rows[j]));
        assert(old_rows[i].id@ != old_rows[j].id@);
    }
}

/// The columns of the tunnel table.
pub open spec fn tunnel_columns() -> Seq<Seq<char>> {
    seq![
        "id"@,
        "agent_id"@,
        "name"@,
        "local_host"@,
        "local_port"@,
        "kind"@,
        "local_scheme"@,
        "remote_port"@,
        "hostname"@,
        "access_mode"@,
        "allowed_cidrs"@,
        "enabled"@,
        "created_at"@,
        "updated_at"@,
    ]
}

/// Migrating is done once: the table that was created or carried over is kept from then on.
pub proof fn law_migrations_are_done_once(tables: int, columns: Seq<String>)
    requires
        tables > 0,
        strings(columns) == tunnel_columns(),
    ensures
        migration(tables, columns) == Migration::Keep,
{
    assert(tunnel_columns().len() == 14);
    assert(strings(columns).len() == columns.len());
    assert(strings(columns)[5] == "kind"@);
    assert(columns[5]@ == "kind"@);
}

/// The database lies in the file that its URL names, without what follows a question mark. A URL of
/// another kind names none.
pub proof fn law_database_files(path: Seq<char>, options: Seq<char>, url: Seq<char>)
    requires
        !path.contains('?'),
    ensures
        database_file("sqlite://"@ + path) == Some(path),
        database_file("sqlite://"@ + path + seq!['?'] + options) == Some(path),
        database_file(url) is Some ==> text::has_prefix(url, "sqlite://"@),
{
    let p = "sqlite://"@;
    let (a, b) = (p + path, p + path + seq!['?'] + options);
    assert(a.take(p.len() as int) =~= p);
    assert(b.take(p.len() as int) =~= p);
    assert(a.skip(p.len() as int) =~= path);
    assert(b.skip(p.len() as int) =~= path + seq!['?'] + options);
    text::lemma_first_at(path, '?');
    assert(text::before(path, '?') =~= path);
    crate::readback::lemma_cut(path, '?', options);
}

/// A table that is missing is created, one without kinds is carried over, and one with kinds is kept,
/// wherever the column stands.
pub proof fn law_migrations(tables: int, columns: Seq<String>, i: int)
    ensures
        tables == 0 <==> migration(tables, columns) == Migration::Create,
        tables != 0 && 0 <= i < columns.len() && columns[i]@ == "kind"@ ==> migration(
            tables,
            columns,
        ) == Migration::Keep,
        tables != 0 && (forall|k: int| 0 <= k < columns.len() ==> (#[trigger] columns[k])@ != "kind"@)
            ==> migration(tables, columns) == Migration::Upgrade,
{
}

/// A row that was carried over holds all that it held before, and is that of a TCP tunnel to a TCP
/// target without a host name.
pub proof fn law_carried_rows_lose_nothing(old_row: TcpTunnelRow, row: TunnelRow)
    requires
        upgraded(old_row, row),
    ensures
        row.id == old_row.id,
        row.agent_id == old_row.agent_id,
        row.name == old_row.name,
        row.local_host == old_row.local_host,
        row.local_port == old_row.local_port,
        row.remote_port == Some(old_row.remote_port),
        row.access_mode == old_row.access_mode,
        row.allowed_cidrs == old_row.allowed_cidrs,
        row.enabled == old_row.enabled,
        row.created_at == old_row.created_at,
        row.updated_at == old_row.updated_at,
        row.kind@ == "tcp"@,
        row.local_scheme@ == "tcp"@,
        row.hostname is None,
{
}

/// Whether a result is what is to be stored of the first administrator.
pub open spec fn bootstraps(
    r: Result<Option<String>, String>,
    existing: i64,
    password: Option<Seq<char>>,
) -> bool {
    if existing > 0 {
        r matches Ok(None)
    } else {
        &&& r matches Ok(stored) ==> (stored matches Some(hash) && (password matches Some(p)
            && long_enough(p) && hash_of(hash@, p)))
        &&& (password matches Some(p) && long_enough(p) && hashable(p)) ==> r is Ok
    }
}

/// The first launch needs a password of twelve characters or more, and stores a hash that fits it; where
/// there is an administrator, nothing is stored, whatever the password.
pub proof fn law_the_first_launch_needs_a_password(
    r: Result<Option<String>, String>,
    existing: i64,
    password: Option<Seq<char>>,
)
    requires
        bootstraps(r, existing, password),
    ensures
        existing > 0 ==> r matches Ok(None),
        existing <= 0 && password is None ==> r is Err,
        existing <= 0 ==> (password matches Some(p) ==> {
            &&& p.len() < 12 ==> r is Err
            &&& p.len() >= 12 && hashable(p) ==> (r matches Ok(Some(hash)) && hash_of(hash@, p))
        }),
{
}

} // verus!
