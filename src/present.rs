//! How hosts are shown to the user, and how one of them is chosen.
use vstd::prelude::*;
use crate::config::{ConfigError, HostView, SshHost};
use crate::text::{decimal, push_decimal, push_str, string_of_range};

verus! {

/// The text shown for an attribute that is unset.
pub open spec fn or_unknown(o: Option<Seq<char>>) -> Seq<char> {
    match o {
        Some(s) => s,
        None => seq!['?'],
    }
}

/// The port that a connection uses: the declared one, else 22.
pub open spec fn effective_port(p: Option<u16>) -> nat {
    match p {
        Some(p) => p as nat,
        None => 22,
    }
}

/// `<alias> (<user or ?>@<hostname or ?>:<port or 22>)`.
pub open spec fn host_label(h: HostView) -> Seq<char> {
    h.name + seq![' ', '('] + or_unknown(h.user) + seq!['@'] + or_unknown(h.hostname) + seq![':']
        + decimal(effective_port(h.port)) + seq![')']
}

/// The listing line of the record at 0-based position `i`: `<i + 1>. <label>`.
pub open spec fn list_line(i: nat, h: HostView) -> Seq<char> {
    decimal(i + 1) + seq!['.', ' '] + host_label(h)
}

fn push_opt(out: &mut Vec<char>, o: &Option<String>)
    ensures
        final(out)@ == old(out)@ + or_unknown(crate::config::opt_view(*o)),
{
    match o {
        Some(s) => push_str(out, s.as_str()),
        None => {
            out.push('?');
            assert(out@ =~= old(out)@ + seq!['?']);
        },
    }
}

fn push_label(out: &mut Vec<char>, host: &SshHost)
    ensures
        final(out)@ == old(out)@ + host_label(host@),
{
    let ghost o = out@;
    push_str(out, host.name.as_str());
    out.push(' ');
    out.push('(');
    push_opt(out, &host.user);
    out.push('@');
    push_opt(out, &host.hostname);
    out.push(':');
    let port: u16 = match host.port {
        Some(p) => p,
        None => 22,
    };
    push_decimal(out, port as u64);
    out.push(')');
    assert(out@ =~= o + host_label(host@));
}

/// The label of `host`, as the listing and the selection show it.
pub fn format_host(host: &SshHost) -> (r: String)
    ensures
        r@ == host_label(host@),
{
    let mut out: Vec<char> = Vec::new();
    push_label(&mut out, host);
    assert(out@ =~= host_label(host@));
    string_of_range(&out, 0, out.len())
}

/// The listing of `hosts`: one line each, numbered from 1, in order.
pub fn list_lines(hosts: &Vec<SshHost>) -> (r: Vec<String>)
    ensures
        r.len() == hosts.len(),
        forall|i: int| 0 <= i < r.len() ==> #[trigger] r[i]@ == list_line(i as nat, hosts[i]@),
{
    let mut r: Vec<String> = Vec::new();
    let mut i: usize = 0;
    while i < hosts.len()
        invariant
            i <= hosts.len(),
            r.len() == i,
            forall|k: int| 0 <= k < i ==> #[trigger] r[k]@ == list_line(k as nat, hosts[k]@),
        decreases hosts.len() - i,
    {
        let mut out: Vec<char> = Vec::new();
        push_decimal(&mut out, i as u64 + 1);
        out.push('.');
        out.push(' ');
        push_label(&mut out, &hosts[i]);
        assert(out@ =~= list_line(i as nat, hosts[i as int]@));
        r.push(string_of_range(&out, 0, out.len()));
        i = i + 1;
    }
    r
}

/// The options that the selection offers: the label of each host, in order.
pub fn host_items(hosts: &Vec<SshHost>) -> (r: Vec<String>)
    ensures
        r.len() == hosts.len(),
        forall|i: int| 0 <= i < r.len() ==> #[trigger] r[i]@ == host_label(hosts[i]@),
{
    let mut r: Vec<String> = Vec::new();
    let mut i: usize = 0;
    while i < hosts.len()
        invariant
            i <= hosts.len(),
            r.len() == i,
            forall|k: int| 0 <= k < i ==> #[trigger] r[k]@ == host_label(hosts[k]@),
        decreases hosts.len() - i,
    {
        r.push(format_host(&hosts[i]));
        i = i + 1;
    }
    r
}

/// The host at position `selection`, as the selection returned it.
/// Fails with `NoHostsAvailable` where there is no host, and with
/// `SelectionFailed` where `selection` names none of them.
pub fn select_host(hosts: &Vec<SshHost>, selection: usize) -> (r: Result<&SshHost, ConfigError>)
    ensures
        hosts.len() == 0 ==> r == Err::<&SshHost, ConfigError>(ConfigError::NoHostsAvailable),
        0 < hosts.len() && selection >= hosts.len() ==> r == Err::<&SshHost, ConfigError>(
            ConfigError::SelectionFailed,
        ),
        selection < hosts.len() ==> r is Ok && *r->Ok_0 == hosts[selection as int],
{
    if hosts.len() == 0 {
        return Err(ConfigError::NoHostsAvailable);
    }
    if selection >= hosts.len() {
        return Err(ConfigError::SelectionFailed);
    }
    Ok(&hosts[selection])
}

} // verus!
