//! The host table: what a `Host` block holds, and the parser that reads the
//! blocks out of the configuration text.
use vstd::prelude::*;
use crate::text::{
    chars_of, has_prefix, parse_u16, parse_u16_spec, string_of_range, trim, trim_range,
};

verus! {

/// One `Host` block of the configuration.
#[derive(Debug)]
pub struct SshHost {
    /// The alias that follows the `Host` keyword.
    pub name: String,
    pub hostname: Option<String>,
    pub user: Option<String>,
    pub port: Option<u16>,
}

/// What a host record holds, as character sequences.
pub struct HostView {
    pub name: Seq<char>,
    pub hostname: Option<Seq<char>>,
    pub user: Option<Seq<char>>,
    pub port: Option<u16>,
}

pub open spec fn opt_view(o: Option<String>) -> Option<Seq<char>> {
    match o {
        Some(s) => Some(s@),
        None => None,
    }
}

impl View for SshHost {
    type V = HostView;

    open spec fn view(&self) -> HostView {
        HostView {
            name: self.name@,
            hostname: opt_view(self.hostname),
            user: opt_view(self.user),
            port: self.port,
        }
    }
}

/// The views of a sequence of host records.
pub open spec fn hosts_view(v: Seq<SshHost>) -> Seq<HostView> {
    v.map_values(|h: SshHost| h@)
}

pub open spec fn opt_host_view(o: Option<SshHost>) -> Option<HostView> {
    match o {
        Some(h) => Some(h@),
        None => None,
    }
}

/// The ways in which locating, reading or using the configuration fails.
#[derive(Debug, Clone, Copy, PartialEq, Eq, Structural)]
pub enum ConfigError {
    /// The home directory's environment variable is not set.
    MissingEnvironment,
    /// The configuration file does not exist.
    NotFound,
    /// The configuration file cannot be opened for reading.
    Unreadable,
    /// The configuration declares no host.
    NoHostsDefined,
    /// A selection was asked for among no hosts.
    NoHostsAvailable,
    /// The interactive selection failed.
    SelectionFailed,
    /// The SSH client exited with a failure.
    ConnectionFailed,
}

pub open spec fn kw_host() -> Seq<char> {
    seq!['H', 'o', 's', 't', ' ']
}

pub open spec fn kw_hostname() -> Seq<char> {
    seq!['H', 'o', 's', 't', 'N', 'a', 'm', 'e', ' ']
}

pub open spec fn kw_user() -> Seq<char> {
    seq!['U', 's', 'e', 'r', ' ']
}

pub open spec fn kw_port() -> Seq<char> {
    seq!['P', 'o', 'r', 't', ' ']
}

/// Whether `l` begins with `p`.
pub open spec fn starts_with(l: Seq<char>, p: Seq<char>) -> bool {
    p.len() <= l.len() && l.subrange(0, p.len() as int) == p
}

/// A record freshly opened by `Host <alias>`.
pub open spec fn new_host(name: Seq<char>) -> HostView {
    HostView { name, hostname: None, user: None, port: None }
}

/// The effect of the trimmed, non-comment line `l` on the open record `h`.
pub open spec fn apply_attr(h: HostView, l: Seq<char>) -> HostView {
    if starts_with(l, kw_hostname()) {
        HostView { hostname: Some(trim(l.skip(kw_hostname().len() as int))), ..h }
    } else if starts_with(l, kw_user()) {
        HostView { user: Some(trim(l.skip(kw_user().len() as int))), ..h }
    } else if starts_with(l, kw_port()) {
        match parse_u16_spec(trim(l.skip(kw_port().len() as int))) {
            Some(p) => HostView { port: Some(p), ..h },
            None => h,
        }
    } else {
        h
    }
}

/// The parser's state: the closed records, and the open one if any.
pub type ParseState = (Seq<HostView>, Option<HostView>);

/// The closed records, with the open one closed too.
pub open spec fn finish(st: ParseState) -> Seq<HostView> {
    match st.1 {
        Some(h) => st.0.push(h),
        None => st.0,
    }
}

/// The effect of one raw line on the parser's state.
pub open spec fn step(st: ParseState, line: Seq<char>) -> ParseState {
    let l = trim(line);
    if l.len() == 0 || l[0] == '#' {
        st
    } else if starts_with(l, kw_host()) {
        (finish(st), Some(new_host(trim(l.skip(kw_host().len() as int)))))
    } else {
        match st.1 {
            Some(h) => (st.0, Some(apply_attr(h, l))),
            None => st,
        }
    }
}

/// The state after the lines `ls`, from the start state.
pub open spec fn run(ls: Seq<Seq<char>>) -> ParseState
    decreases ls.len(),
{
    if ls.len() == 0 {
        (Seq::empty(), None)
    } else {
        step(run(ls.drop_last()), ls.last())
    }
}

/// Splitting `t` at its newlines: the finished lines and the line in progress.
pub open spec fn split_acc(t: Seq<char>) -> (Seq<Seq<char>>, Seq<char>)
    decreases t.len(),
{
    if t.len() == 0 {
        (Seq::empty(), Seq::empty())
    } else {
        let (done, cur) = split_acc(t.drop_last());
        if t.last() == '\n' {
            (done.push(cur), Seq::empty())
        } else {
            (done, cur.push(t.last()))
        }
    }
}

/// The lines of `t`, split at each newline.
pub open spec fn lines(t: Seq<char>) -> Seq<Seq<char>> {
    split_acc(t).0.push(split_acc(t).1)
}

/// The records that the text `t` declares, in file order.
pub open spec fn hosts_of(t: Seq<char>) -> Seq<HostView> {
    finish(run(lines(t)))
}


/// The open record `h` after the trimmed, non-comment line `cs[a..b]`.
fn apply_attr_exec(cs: &Vec<char>, a: usize, b: usize, h: SshHost) -> (r: SshHost)
    requires
        a <= b <= cs.len(),
    ensures
        r@ == apply_attr(h@, cs@.subrange(a as int, b as int)),
{
    let ghost l = cs@.subrange(a as int, b as int);
    let mut h = h;
    let kh = chars_of("HostName ");
    let ku = chars_of("User ");
    let kp = chars_of("Port ");
    proof {
        reveal_strlit("HostName ");
        reveal_strlit("User ");
        reveal_strlit("Port ");
        assert(kh@ =~= kw_hostname());
        assert(ku@ =~= kw_user());
        assert(kp@ =~= kw_port());
    }
    if has_prefix(cs, a, b, &kh) {
        assert(l.subrange(0, kh@.len() as int) =~= cs@.subrange(a as int, a + kh@.len()));
        assert(l.skip(kh@.len() as int) =~= cs@.subrange(a + kh@.len(), b as int));
        let (x, y) = trim_range(cs, a + kh.len(), b);
        h.hostname = Some(string_of_range(cs, x, y));
    } else if has_prefix(cs, a, b, &ku) {
        assert(l.subrange(0, ku@.len() as int) =~= cs@.subrange(a as int, a + ku@.len()));
        assert(l.skip(ku@.len() as int) =~= cs@.subrange(a + ku@.len(), b as int));
        assert(!starts_with(l, kw_hostname())) by {
            if kh@.len() <= l.len() {
                assert(l.subrange(0, kh@.len() as int) =~= cs@.subrange(a as int, a + kh@.len()));
            }
        }
        let (x, y) = trim_range(cs, a + ku.len(), b);
        h.user = Some(string_of_range(cs, x, y));
    } else if has_prefix(cs, a, b, &kp) {
        assert(l.subrange(0, kp@.len() as int) =~= cs@.subrange(a as int, a + kp@.len()));
        assert(l.skip(kp@.len() as int) =~= cs@.subrange(a + kp@.len(), b as int));
        assert(!starts_with(l, kw_hostname())) by {
            if kh@.len() <= l.len() {
                assert(l.subrange(0, kh@.len() as int) =~= cs@.subrange(a as int, a + kh@.len()));
            }
        }
        assert(!starts_with(l, kw_user())) by {
            if ku@.len() <= l.len() {
                assert(l.subrange(0, ku@.len() as int) =~= cs@.subrange(a as int, a + ku@.len()));
            }
        }
        let (x, y) = trim_range(cs, a + kp.len(), b);
        match parse_u16(cs, x, y) {
            Some(p) => {
                h.port = Some(p);
            },
            None => {},
        }
    } else {
        assert(!starts_with(l, kw_hostname())) by {
            if kh@.len() <= l.len() {
                assert(l.subrange(0, kh@.len() as int) =~= cs@.subrange(a as int, a + kh@.len()));
            }
        }
        assert(!starts_with(l, kw_user())) by {
            if ku@.len() <= l.len() {
                assert(l.subrange(0, ku@.len() as int) =~= cs@.subrange(a as int, a + ku@.len()));
            }
        }
        assert(!starts_with(l, kw_port())) by {
            if kp@.len() <= l.len() {
                assert(l.subrange(0, kp@.len() as int) =~= cs@.subrange(a as int, a + kp@.len()));
            }
        }
    }
    h
}


/// Closes the open record, if any, by appending it to `hosts`.
fn close_open(hosts: &mut Vec<SshHost>, current: Option<SshHost>)
    ensures
        hosts_view(final(hosts)@) == finish((hosts_view(old(hosts)@), opt_host_view(current))),
{
    match current {
        Some(h) => {
            hosts.push(h);
            assert(hosts_view(hosts@) =~= hosts_view(old(hosts)@).push(h@));
        },
        None => {},
    }
}

/// The parser's state after the raw line `cs[lo..hi]`.
fn step_exec(cs: &Vec<char>, lo: usize, hi: usize, hosts: &mut Vec<SshHost>, current: Option<SshHost>)
    -> (r: Option<SshHost>)
    requires
        lo <= hi <= cs.len(),
    ensures
        (hosts_view(final(hosts)@), opt_host_view(r)) == step(
            (hosts_view(old(hosts)@), opt_host_view(current)),
            cs@.subrange(lo as int, hi as int),
        ),
{
    let (a, b) = trim_range(cs, lo, hi);
    let ghost l = cs@.subrange(a as int, b as int);
    if a == b || cs[a] == '#' {
        return current;
    }
    let kh = chars_of("Host ");
    proof {
        reveal_strlit("Host ");
        assert(kh@ =~= kw_host());
    }
    if has_prefix(cs, a, b, &kh) {
        assert(l.subrange(0, kh@.len() as int) =~= cs@.subrange(a as int, a + kh@.len()));
        assert(l.skip(kh@.len() as int) =~= cs@.subrange(a + kh@.len(), b as int));
        close_open(hosts, current);
        let (x, y) = trim_range(cs, a + kh.len(), b);
        Some(SshHost { name: string_of_range(cs, x, y), hostname: None, user: None, port: None })
    } else {
        assert(!starts_with(l, kw_host())) by {
            if kh@.len() <= l.len() {
                assert(l.subrange(0, kh@.len() as int) =~= cs@.subrange(a as int, a + kh@.len()));
            }
        }
        match current {
            Some(h) => Some(apply_attr_exec(cs, a, b, h)),
            None => None,
        }
    }
}

/// Reads the host records out of the configuration text `text`, in file
/// order; fails with `NoHostsDefined` where it declares none.
pub fn parse_hosts(text: &str) -> (r: Result<Vec<SshHost>, ConfigError>)
    ensures
        hosts_of(text@).len() > 0 ==> r is Ok && hosts_view(r->Ok_0@) == hosts_of(text@),
        hosts_of(text@).len() == 0 ==> r == Err::<Vec<SshHost>, ConfigError>(
            ConfigError::NoHostsDefined,
        ),
{
    let cs = chars_of(text);
    let ghost t = cs@;
    let mut hosts: Vec<SshHost> = Vec::new();
    let mut current: Option<SshHost> = None;
    let mut start: usize = 0;
    let mut i: usize = 0;
    while i < cs.len()
        invariant
            start <= i <= cs.len(),
            t == cs@,
            split_acc(t.take(i as int)).1 == t.subrange(start as int, i as int),
            (hosts_view(hosts@), opt_host_view(current)) == run(split_acc(t.take(i as int)).0),
        decreases cs.len() - i,
    {
        assert(t.take(i + 1).drop_last() =~= t.take(i as int));
        if cs[i] == '\n' {
            current = step_exec(&cs, start, i, &mut hosts, current);
            start = i + 1;
            assert(split_acc(t.take(i + 1)).0.drop_last() =~= split_acc(t.take(i as int)).0);
        } else {
            assert(t.subrange(start as int, i + 1) =~= t.subrange(start as int, i as int).push(cs@[i as int]));
        }
        i = i + 1;
    }
    assert(t.take(i as int) =~= t);
    current = step_exec(&cs, start, i, &mut hosts, current);
    assert(lines(t).drop_last() =~= split_acc(t).0);
    close_open(&mut hosts, current);
    if hosts.len() == 0 {
        Err(ConfigError::NoHostsDefined)
    } else {
        Ok(hosts)
    }
}

} // verus!
