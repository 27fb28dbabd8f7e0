//! What holds of the parser over all inputs.
use vstd::prelude::*;
use crate::config::{
    apply_attr, finish, hosts_of, kw_host, kw_hostname, kw_port, kw_user, lines, run, split_acc,
    starts_with, step, HostView, ParseState,
};
use crate::text::{is_ws, parse_u16_spec, trim, trim_end, trim_start};

verus! {

/// Whether the raw line `l` opens a `Host` block.
pub open spec fn is_host_line(l: Seq<char>) -> bool {
    starts_with(trim(l), kw_host())
}

/// The alias that the `Host` line `l` declares.
pub open spec fn alias_of(l: Seq<char>) -> Seq<char> {
    trim(trim(l).skip(kw_host().len() as int))
}

/// The aliases of the `Host` lines among `ls`, in order.
pub open spec fn aliases(ls: Seq<Seq<char>>) -> Seq<Seq<char>>
    decreases ls.len(),
{
    if ls.len() == 0 {
        Seq::empty()
    } else if is_host_line(ls.last()) {
        aliases(ls.drop_last()).push(alias_of(ls.last()))
    } else {
        aliases(ls.drop_last())
    }
}

/// The aliases of a sequence of records.
pub open spec fn names(hs: Seq<HostView>) -> Seq<Seq<char>> {
    hs.map_values(|h: HostView| h.name)
}

/// The state after the lines `ls`, from the state `st`.
pub open spec fn run_from(st: ParseState, ls: Seq<Seq<char>>) -> ParseState
    decreases ls.len(),
{
    if ls.len() == 0 {
        st
    } else {
        step(run_from(st, ls.drop_last()), ls.last())
    }
}

proof fn lemma_names_step(st: ParseState, l: Seq<char>)
    ensures
        names(finish(step(st, l))) == if is_host_line(l) {
            names(finish(st)).push(alias_of(l))
        } else {
            names(finish(st))
        },
{
    let t = trim(l);
    if t.len() == 0 || t[0] == '#' {
        if is_host_line(l) {
            assert(t.subrange(0, 5)[0] == kw_host()[0]);
        }
    } else if starts_with(t, kw_host()) {
        assert(names(finish(step(st, l))) =~= names(finish(st)).push(alias_of(l)));
    } else {
        match st.1 {
            Some(h) => {
                assert(names(finish(step(st, l))) =~= names(finish(st)));
            },
            None => {},
        }
    }
}

proof fn lemma_names_run(ls: Seq<Seq<char>>)
    ensures
        names(finish(run(ls))) == aliases(ls),
    decreases ls.len(),
{
    if ls.len() == 0 {
        assert(names(finish(run(ls))) =~= aliases(ls));
    } else {
        lemma_names_run(ls.drop_last());
        lemma_names_step(run(ls.drop_last()), ls.last());
    }
}

/// The records come one for each `Host` line, in file order, and each bears
/// the alias that its line declares, whatever the attribute lines around them.
pub proof fn records_follow_host_lines(t: Seq<char>)
    ensures
        names(hosts_of(t)) == aliases(lines(t)),
        hosts_of(t).len() == aliases(lines(t)).len(),
{
    lemma_names_run(lines(t));
}

/// A text in which no line opens a `Host` block declares no host, so the
/// parser fails on it with `NoHostsDefined`.
pub proof fn no_host_line_no_hosts(t: Seq<char>)
    requires
        forall|i: int| 0 <= i < lines(t).len() ==> !is_host_line(#[trigger] lines(t)[i]),
    ensures
        hosts_of(t).len() == 0,
{
    lemma_no_aliases(lines(t));
    records_follow_host_lines(t);
}

proof fn lemma_no_aliases(ls: Seq<Seq<char>>)
    requires
        forall|i: int| 0 <= i < ls.len() ==> !is_host_line(#[trigger] ls[i]),
    ensures
        aliases(ls).len() == 0,
    decreases ls.len(),
{
    if ls.len() > 0 {
        assert(forall|i: int| 0 <= i < ls.len() - 1 ==> ls.drop_last()[i] == ls[i]);
        lemma_no_aliases(ls.drop_last());
        assert(!is_host_line(ls[ls.len() - 1]));
    }
}

proof fn lemma_run_initial(ls: Seq<Seq<char>>)
    requires
        forall|i: int| 0 <= i < ls.len() ==> !is_host_line(#[trigger] ls[i]),
    ensures
        run(ls) == (Seq::<HostView>::empty(), None::<HostView>),
    decreases ls.len(),
{
    if ls.len() > 0 {
        assert(forall|i: int| 0 <= i < ls.len() - 1 ==> ls.drop_last()[i] == ls[i]);
        lemma_run_initial(ls.drop_last());
        assert(!is_host_line(ls[ls.len() - 1]));
    }
}

proof fn lemma_run_append(a: Seq<Seq<char>>, b: Seq<Seq<char>>)
    ensures
        run(a + b) == run_from(run(a), b),
    decreases b.len(),
{
    if b.len() == 0 {
        assert(a + b =~= a);
    } else {
        assert((a + b).drop_last() =~= a + b.drop_last());
        assert((a + b).last() == b.last());
        lemma_run_append(a, b.drop_last());
    }
}

proof fn lemma_run_from_initial(b: Seq<Seq<char>>)
    ensures
        run(b) == run_from((Seq::<HostView>::empty(), None::<HostView>), b),
    decreases b.len(),
{
    if b.len() > 0 {
        lemma_run_from_initial(b.drop_last());
    }
}

proof fn lemma_split_append(p: Seq<char>, q: Seq<char>)
    requires
        p.len() == 0 || p.last() == '\n',
    ensures
        split_acc(p + q) == (split_acc(p).0 + split_acc(q).0, split_acc(q).1),
    decreases q.len(),
{
    if q.len() == 0 {
        assert(p + q =~= p);
        if p.len() > 0 {
            assert(split_acc(p).1 == Seq::<char>::empty());
        }
        assert(split_acc(p).0 + split_acc(q).0 =~= split_acc(p).0);
    } else {
        assert((p + q).drop_last() =~= p + q.drop_last());
        lemma_split_append(p, q.drop_last());
        let (d, c) = split_acc(q.drop_last());
        if q.last() == '\n' {
            assert(split_acc(p).0 + d.push(c) =~= (split_acc(p).0 + d).push(c));
        }
    }
}

/// Lines that stand before the first `Host` line have no effect on the
/// records: `p`, which ends at a line break and opens no block, may be put in
/// front of any text `q`.
pub proof fn lines_before_first_host_ignored(p: Seq<char>, q: Seq<char>)
    requires
        p.len() == 0 || p.last() == '\n',
        forall|i: int|
            0 <= i < split_acc(p).0.len() ==> !is_host_line(#[trigger] split_acc(p).0[i]),
    ensures
        hosts_of(p + q) == hosts_of(q),
{
    lemma_split_append(p, q);
    assert(lines(p + q) =~= split_acc(p).0 + lines(q));
    lemma_run_append(split_acc(p).0, lines(q));
    lemma_run_initial(split_acc(p).0);
    lemma_run_from_initial(lines(q));
}

/// A `Port` line whose value is no 16-bit unsigned integer leaves the record
/// as it was: its port, and every attribute read before it.
pub proof fn malformed_port_ignored(h: HostView, l: Seq<char>)
    requires
        starts_with(l, kw_port()),
        parse_u16_spec(trim(l.skip(kw_port().len() as int))) is None,
    ensures
        apply_attr(h, l) == h,
{
    assert(l.subrange(0, 5)[0] == 'P');
    if starts_with(l, kw_hostname()) {
        assert(l.subrange(0, 9)[0] == 'H');
    }
    if starts_with(l, kw_user()) {
        assert(l.subrange(0, 5)[0] == 'U');
    }
}

/// Of two lines that set the same attribute of a record, the later one wins.
/// For `Port`, this holds where the later value is a valid port.
pub proof fn last_assignment_wins(h: HostView, l1: Seq<char>, l2: Seq<char>)
    requires
        (starts_with(l1, kw_hostname()) && starts_with(l2, kw_hostname())) || (starts_with(
            l1,
            kw_user(),
        ) && starts_with(l2, kw_user())) || (starts_with(l1, kw_port()) && starts_with(
            l2,
            kw_port(),
        ) && parse_u16_spec(trim(l2.skip(kw_port().len() as int))) is Some),
    ensures
        apply_attr(apply_attr(h, l1), l2) == apply_attr(h, l2),
{
    lemma_first_char(l1);
    lemma_first_char(l2);
}

proof fn lemma_first_char(l: Seq<char>)
    ensures
        starts_with(l, kw_hostname()) ==> l[0] == 'H',
        starts_with(l, kw_user()) ==> l[0] == 'U',
        starts_with(l, kw_port()) ==> l[0] == 'P',
{
    if starts_with(l, kw_hostname()) {
        assert(l.subrange(0, 9)[0] == 'H');
    }
    if starts_with(l, kw_user()) {
        assert(l.subrange(0, 5)[0] == 'U');
    }
    if starts_with(l, kw_port()) {
        assert(l.subrange(0, 5)[0] == 'P');
    }
}

/// A line `Host` with no alias after it opens no block and changes nothing:
/// the lines after it stay with the block that was open before it, if any.
pub proof fn bare_host_keyword_ignored(st: ParseState, line: Seq<char>)
    requires
        trim(line) == seq!['H', 'o', 's', 't'],
    ensures
        step(st, line) == st,
{
    let t = trim(line);
    assert(t[0] == 'H');
    assert(!starts_with(t, kw_host()));
    assert(!starts_with(t, kw_hostname()));
    assert(!starts_with(t, kw_user()));
    assert(!starts_with(t, kw_port()));
}


proof fn lemma_trim_start_keeps_last(s: Seq<char>)
    requires
        s.len() > 0,
        !is_ws(s.last()),
    ensures
        trim_start(s).len() > 0,
        trim_start(s).last() == s.last(),
    decreases s.len(),
{
    if is_ws(s[0]) {
        lemma_trim_start_keeps_last(s.drop_first());
    }
}

proof fn lemma_trim_end_last(s: Seq<char>)
    ensures
        trim_end(s).len() > 0 ==> !is_ws(trim_end(s).last()),
        trim_end(s).len() <= s.len(),
        trim_end(s) == s.subrange(0, trim_end(s).len() as int),
    decreases s.len(),
{
    if s.len() > 0 && is_ws(s.last()) {
        lemma_trim_end_last(s.drop_last());
        assert(s.drop_last().subrange(0, trim_end(s).len() as int) =~= s.subrange(
            0,
            trim_end(s).len() as int,
        ));
    } else {
        assert(s.subrange(0, s.len() as int) =~= s);
    }
}

proof fn lemma_trim_nonempty(s: Seq<char>)
    requires
        s.len() > 0,
        !is_ws(s.last()),
    ensures
        trim(s).len() > 0,
{
    lemma_trim_start_keeps_last(s);
}

/// The alias that a `Host` line declares is never empty.
proof fn lemma_alias_nonempty(l: Seq<char>)
    requires
        is_host_line(l),
    ensures
        alias_of(l).len() > 0,
{
    let t = trim(l);
    lemma_trim_end_last(trim_start(l));
    assert(t.subrange(0, 5)[4] == ' ');
    assert(t.len() > 5) by {
        if t.len() == 5 {
            assert(t.last() == t.subrange(0, 5)[4]);
        }
    }
    let r = t.skip(5);
    assert(r.last() == t.last());
    lemma_trim_nonempty(r);
}

proof fn lemma_aliases_nonempty(ls: Seq<Seq<char>>)
    ensures
        forall|k: int| 0 <= k < aliases(ls).len() ==> #[trigger] aliases(ls)[k].len() > 0,
    decreases ls.len(),
{
    if ls.len() > 0 {
        lemma_aliases_nonempty(ls.drop_last());
        let prev = aliases(ls.drop_last());
        if is_host_line(ls.last()) {
            lemma_alias_nonempty(ls.last());
            assert forall|k: int| 0 <= k < aliases(ls).len() implies #[trigger] aliases(ls)[k].len()
                > 0 by {
                if k < prev.len() {
                    assert(aliases(ls)[k] == prev[k]);
                }
            }
        }
    }
}

/// Every record that the parser yields has a non-empty alias.
pub proof fn aliases_are_nonempty(t: Seq<char>)
    ensures
        forall|k: int| 0 <= k < hosts_of(t).len() ==> #[trigger] hosts_of(t)[k].name.len() > 0,
{
    records_follow_host_lines(t);
    lemma_aliases_nonempty(lines(t));
    assert forall|k: int| 0 <= k < hosts_of(t).len() implies #[trigger] hosts_of(t)[k].name.len() > 0 by {
        assert(names(hosts_of(t))[k] == hosts_of(t)[k].name);
    }
}

} // verus!
