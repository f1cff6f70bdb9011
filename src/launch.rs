//! Launch settings of the backend child and the navigation that follows the
//! readiness wait.

use vstd::prelude::*;

verus! {

/// Port the backend listens on.
pub const SERVER_PORT: u16 = 3333;

/// The decimal digit for `d < 10`.
pub open spec fn digit_char(d: nat) -> char {
    if d == 0 { '0' }
    else if d == 1 { '1' }
    else if d == 2 { '2' }
    else if d == 3 { '3' }
    else if d == 4 { '4' }
    else if d == 5 { '5' }
    else if d == 6 { '6' }
    else if d == 7 { '7' }
    else if d == 8 { '8' }
    else { '9' }
}

/// The decimal numeral of `n`, without leading zeros.
pub open spec fn decimal(n: nat) -> Seq<char>
    decreases n,
{
    if n < 10 {
        seq![digit_char(n)]
    } else {
        decimal(n / 10).push(digit_char(n % 10))
    }
}

fn digit_str(d: u32) -> (r: &'static str)
    requires
        d < 10,
    ensures
        r@ == seq![digit_char(d as nat)],
{
    proof {
        reveal_strlit("0");
        reveal_strlit("1");
        reveal_strlit("2");
        reveal_strlit("3");
        reveal_strlit("4");
        reveal_strlit("5");
        reveal_strlit("6");
        reveal_strlit("7");
        reveal_strlit("8");
        reveal_strlit("9");
    }
    if d == 0 { "0" }
    else if d == 1 { "1" }
    else if d == 2 { "2" }
    else if d == 3 { "3" }
    else if d == 4 { "4" }
    else if d == 5 { "5" }
    else if d == 6 { "6" }
    else if d == 7 { "7" }
    else if d == 8 { "8" }
    else { "9" }
}

/// The decimal numeral of `n`.
pub fn decimal_string(n: u32) -> (r: String)
    ensures
        r@ == decimal(n as nat),
    decreases n,
{
    if n < 10 {
        String::from_str(digit_str(n))
    } else {
        let mut s = decimal_string(n / 10);
        s.append(digit_str(n % 10));
        s
    }
}

/// One environment variable handed to the child.
pub open spec fn var(name: Seq<char>, value: Seq<char>) -> (Seq<char>, Seq<char>) {
    (name, value)
}

/// The environment of the child: its port, a loopback host name, the
/// production mode flag, the application root and, when an application data
/// directory is known, the database file under it.
pub open spec fn environment_spec(
    port: u16,
    app_root: Seq<char>,
    db_path: Option<Seq<char>>,
) -> Seq<(Seq<char>, Seq<char>)> {
    let fixed = seq![
        var("PORT"@, decimal(port as nat)),
        var("HOSTNAME"@, "127.0.0.1"@),
        var("NODE_ENV"@, "production"@),
        var("APP_ROOT"@, app_root),
    ];
    match db_path {
        Some(p) => fixed.push(var("SQLITE_DB_PATH"@, p)),
        None => fixed,
    }
}

/// Views of the name/value pairs.
pub open spec fn pairs_view(v: Seq<(String, String)>) -> Seq<(Seq<char>, Seq<char>)> {
    v.map_values(|p: (String, String)| (p.0@, p.1@))
}

/// The environment variables of the child, in order.
pub fn environment(port: u16, app_root: &String, db_path: &Option<String>) -> (r: Vec<
    (String, String),
>)
    ensures
        pairs_view(r@) == environment_spec(port, app_root@, opt_view(db_path)),
{
    let mut r: Vec<(String, String)> = Vec::new();
    r.push((String::from_str("PORT"), decimal_string(port as u32)));
    r.push((String::from_str("HOSTNAME"), String::from_str("127.0.0.1")));
    r.push((String::from_str("NODE_ENV"), String::from_str("production")));
    r.push((String::from_str("APP_ROOT"), app_root.clone()));
    match db_path {
        Some(p) => {
            r.push((String::from_str("SQLITE_DB_PATH"), p.clone()));
        },
        None => {},
    }
    proof {
        assert(pairs_view(r@) =~= environment_spec(port, app_root@, opt_view(db_path)));
    }
    r
}

pub open spec fn opt_view(o: &Option<String>) -> Option<Seq<char>> {
    match o {
        Some(s) => Some(s@),
        None => None,
    }
}

/// The backend's address on the loopback interface.
pub open spec fn server_url_spec(port: u16) -> Seq<char> {
    "http://127.0.0.1:"@ + decimal(port as nat)
}

/// The backend's address on the loopback interface.
pub fn server_url(port: u16) -> (r: String)
    ensures
        r@ == server_url_spec(port),
{
    let mut s = String::from_str("http://127.0.0.1:");
    let d = decimal_string(port as u32);
    s.append(d.as_str());
    s
}

/// The script that points the window at the backend.
pub open spec fn navigation_script_spec(port: u16) -> Seq<char> {
    "window.location.replace('"@ + server_url_spec(port) + "');"@
}

/// The script that points the window at the backend.
pub fn navigation_script(port: u16) -> (r: String)
    ensures
        r@ == navigation_script_spec(port),
{
    let mut s = String::from_str("window.location.replace('");
    let u = server_url(port);
    s.append(u.as_str());
    s.append("');");
    s
}

/// What to do when the readiness wait times out.
#[derive(Debug, Clone, Copy, PartialEq, Eq, Structural)]
pub enum TimeoutPolicy {
    /// Leave the window where it is.
    StayIdle,
    /// Point the window at the backend anyway.
    NavigateAnyway,
}

/// Whether to point the window at the backend after the readiness wait.
pub fn should_navigate(ready: bool, policy: TimeoutPolicy) -> (r: bool)
    ensures
        r == (ready || policy == TimeoutPolicy::NavigateAnyway),
{
    ready || match policy {
        TimeoutPolicy::NavigateAnyway => true,
        TimeoutPolicy::StayIdle => false,
    }
}

} // verus!
