//! Selection of the graphical-session variables from the output of
//! `systemctl --user show-environment`, so that the overlay is launched into
//! the current desktop session.
use vstd::prelude::*;
use vstd::string::StringSliceAdditionalSpecFns;

verus! {

/// `\n`
pub const NEWLINE: u8 = 10;
/// `\r`
pub const CARRIAGE_RETURN: u8 = 13;
/// `=`
pub const EQUALS: u8 = 61;

/// The index of the first `b` in `s`.
pub open spec fn first_index(s: Seq<u8>, b: u8) -> Option<int>
    decreases s.len(),
{
    if s.len() == 0 {
        None
    } else if s[0] == b {
        Some(0)
    } else {
        match first_index(s.drop_first(), b) {
            Some(i) => Some(i + 1),
            None => None,
        }
    }
}

/// A line without the `\r` of a `\r\n` line ending.
pub open spec fn strip_cr(line: Seq<u8>) -> Seq<u8> {
    if line.len() > 0 && line.last() == CARRIAGE_RETURN {
        line.drop_last()
    } else {
        line
    }
}

/// The lines of a text as `str::lines` yields them: split after each `\n`,
/// the `\n` and the `\r` before it removed, a final line without `\n`
/// kept as it is, and no empty line after a final `\n`.
pub open spec fn text_lines(s: Seq<u8>) -> Seq<Seq<u8>>
    decreases s.len(),
{
    if s.len() == 0 {
        Seq::empty()
    } else {
        match first_index(s, NEWLINE) {
            Some(i) => {
                proof {
                    lemma_first_index_range(s, NEWLINE);
                }
                seq![strip_cr(s.take(i))] + text_lines(s.skip(i + 1))
            },
            None => seq![s],
        }
    }
}

/// A line `KEY=VALUE` split at its first `=`.
pub open spec fn split_assignment(line: Seq<u8>) -> Option<(Seq<u8>, Seq<u8>)> {
    match first_index(line, EQUALS) {
        Some(i) => Some((line.take(i), line.skip(i + 1))),
        None => None,
    }
}

/// The assignments among `lines` whose key is one of `allowed`, in order.
pub open spec fn allowed_assignments(lines: Seq<Seq<u8>>, allowed: Seq<Seq<u8>>) -> Seq<(Seq<u8>, Seq<u8>)>
    decreases lines.len(),
{
    if lines.len() == 0 {
        Seq::empty()
    } else {
        let rest = allowed_assignments(lines.drop_first(), allowed);
        match split_assignment(lines[0]) {
            Some((key, value)) => if allowed.contains(key) {
                seq![(key, value)] + rest
            } else {
                rest
            },
            None => rest,
        }
    }
}

/// The bytes of each entry.
pub open spec fn byte_views(v: Seq<Vec<u8>>) -> Seq<Seq<u8>> {
    v.map_values(|b: Vec<u8>| b@)
}

/// The bytes of each key and value.
pub open spec fn pair_views(v: Seq<(Vec<u8>, Vec<u8>)>) -> Seq<(Seq<u8>, Seq<u8>)> {
    v.map_values(|p: (Vec<u8>, Vec<u8>)| (p.0@, p.1@))
}

/// The variables that locate the Wayland session, its D-Bus bus and its runtime directory.
pub open spec fn wayland_session_keys() -> Seq<Seq<u8>> {
    seq![
        "WAYLAND_DISPLAY".spec_bytes(),
        "DISPLAY".spec_bytes(),
        "XDG_CURRENT_DESKTOP".spec_bytes(),
        "XDG_SESSION_TYPE".spec_bytes(),
        "XDG_RUNTIME_DIR".spec_bytes(),
        "DBUS_SESSION_BUS_ADDRESS".spec_bytes(),
    ]
}

/// The variables that locate the X11 display and the session bus.
pub open spec fn x11_session_keys() -> Seq<Seq<u8>> {
    seq![
        "DISPLAY".spec_bytes(),
        "XAUTHORITY".spec_bytes(),
        "WAYLAND_DISPLAY".spec_bytes(),
        "XDG_RUNTIME_DIR".spec_bytes(),
        "DBUS_SESSION_BUS_ADDRESS".spec_bytes(),
    ]
}

/// A found index is in range and holds the byte.
pub proof fn lemma_first_index_range(s: Seq<u8>, b: u8)
    ensures
        first_index(s, b) matches Some(i) ==> 0 <= i < s.len() && s[i] == b,
    decreases s.len(),
{
    if s.len() > 0 && s[0] != b {
        lemma_first_index_range(s.drop_first(), b);
    }
}

proof fn lemma_first_index_at(s: Seq<u8>, b: u8, i: int)
    requires
        0 <= i < s.len(),
        s[i] == b,
        forall|k: int| 0 <= k < i ==> s[k] != b,
    ensures
        first_index(s, b) == Some(i),
    decreases i,
{
    if i > 0 {
        lemma_first_index_at(s.drop_first(), b, i - 1);
    }
}

proof fn lemma_first_index_none(s: Seq<u8>, b: u8)
    requires
        forall|k: int| 0 <= k < s.len() ==> s[k] != b,
    ensures
        first_index(s, b) is None,
    decreases s.len(),
{
    if s.len() > 0 {
        lemma_first_index_none(s.drop_first(), b);
    }
}

fn bytes_of(s: &str) -> (res: Vec<u8>)
    ensures
        res@ == s.spec_bytes(),
{
    let bytes = s.as_bytes();
    let mut res: Vec<u8> = Vec::new();
    let mut i: usize = 0;
    while i < bytes.len()
        invariant
            0 <= i <= bytes@.len(),
            res@ == bytes@.take(i as int),
        decreases bytes@.len() - i,
    {
        res.push(bytes[i]);
        assert(bytes@.take(i + 1) =~= bytes@.take(i as int).push(bytes@[i as int]));
        i = i + 1;
    }
    assert(bytes@.take(bytes@.len() as int) =~= bytes@);
    res
}

/// The variables forwarded to the Wayland overlay.
pub fn wayland_session_env_keys() -> (keys: Vec<Vec<u8>>)
    ensures
        byte_views(keys@) == wayland_session_keys(),
{
    let mut keys: Vec<Vec<u8>> = Vec::new();
    keys.push(bytes_of("WAYLAND_DISPLAY"));
    keys.push(bytes_of("DISPLAY"));
    keys.push(bytes_of("XDG_CURRENT_DESKTOP"));
    keys.push(bytes_of("XDG_SESSION_TYPE"));
    keys.push(bytes_of("XDG_RUNTIME_DIR"));
    keys.push(bytes_of("DBUS_SESSION_BUS_ADDRESS"));
    assert(byte_views(keys@) =~= wayland_session_keys());
    keys
}

/// The variables refreshed in the X11 daemon's environment.
pub fn x11_session_env_keys() -> (keys: Vec<Vec<u8>>)
    ensures
        byte_views(keys@) == x11_session_keys(),
{
    let mut keys: Vec<Vec<u8>> = Vec::new();
    keys.push(bytes_of("DISPLAY"));
    keys.push(bytes_of("XAUTHORITY"));
    keys.push(bytes_of("WAYLAND_DISPLAY"));
    keys.push(bytes_of("XDG_RUNTIME_DIR"));
    keys.push(bytes_of("DBUS_SESSION_BUS_ADDRESS"));
    assert(byte_views(keys@) =~= x11_session_keys());
    keys
}

fn copy_range(v: &Vec<u8>, from: usize, to: usize) -> (res: Vec<u8>)
    requires
        from <= to <= v@.len(),
    ensures
        res@ == v@.subrange(from as int, to as int),
{
    let mut res: Vec<u8> = Vec::new();
    let mut i: usize = from;
    while i < to
        invariant
            from <= i <= to <= v@.len(),
            res@ == v@.subrange(from as int, i as int),
        decreases to - i,
    {
        res.push(v[i]);
        assert(v@.subrange(from as int, i + 1) =~= v@.subrange(from as int, i as int).push(v@[i as int]));
        i = i + 1;
    }
    res
}

fn same_bytes(a: &Vec<u8>, b: &Vec<u8>) -> (res: bool)
    ensures
        res == (a@ == b@),
{
    if a.len() != b.len() {
        return false;
    }
    let mut i: usize = 0;
    while i < a.len()
        invariant
            a@.len() == b@.len(),
            0 <= i <= a@.len(),
            forall|k: int| 0 <= k < i ==> a@[k] == b@[k],
        decreases a@.len() - i,
    {
        if a[i] != b[i] {
            return false;
        }
        i = i + 1;
    }
    assert(a@ =~= b@);
    true
}

fn is_allowed(allowed: &Vec<Vec<u8>>, key: &Vec<u8>) -> (res: bool)
    ensures
        res == byte_views(allowed@).contains(key@),
{
    let mut i: usize = 0;
    while i < allowed.len()
        invariant
            0 <= i <= allowed@.len(),
            forall|k: int| 0 <= k < i ==> (#[trigger] allowed@[k])@ != key@,
        decreases allowed@.len() - i,
    {
        if same_bytes(&allowed[i], key) {
            assert(byte_views(allowed@)[i as int] == key@);
            return true;
        }
        i = i + 1;
    }
    proof {
        if byte_views(allowed@).contains(key@) {
            let k = choose|k: int| 0 <= k < byte_views(allowed@).len() && byte_views(allowed@)[k] == key@;
            assert(allowed@[k]@ == key@);
        }
    }
    false
}

fn find_byte(v: &Vec<u8>, from: usize, b: u8) -> (res: usize)
    requires
        from <= v@.len(),
    ensures
        from <= res <= v@.len(),
        forall|k: int| from <= k < res ==> v@[k] != b,
        res < v@.len() ==> v@[res as int] == b,
{
    let mut j = from;
    while j < v.len() && v[j] != b
        invariant
            from <= j <= v@.len(),
            forall|k: int| from <= k < j ==> v@[k] != b,
        decreases v@.len() - j,
    {
        j = j + 1;
    }
    j
}

/// The assignment on one line, kept when its key is allowed.
fn allowed_assignment(line: &Vec<u8>, allowed: &Vec<Vec<u8>>) -> (res: Option<(Vec<u8>, Vec<u8>)>)
    ensures
        match res {
            Some(p) => split_assignment(line@) == Some((p.0@, p.1@)) && byte_views(allowed@).contains(p.0@),
            None => match split_assignment(line@) {
                Some((key, value)) => !byte_views(allowed@).contains(key),
                None => true,
            },
        },
{
    let e = find_byte(line, 0, EQUALS);
    if e == line.len() {
        proof {
            lemma_first_index_none(line@, EQUALS);
        }
        return None;
    }
    proof {
        lemma_first_index_at(line@, EQUALS, e as int);
    }
    let key = copy_range(line, 0, e);
    let value = copy_range(line, e + 1, line.len());
    assert(key@ =~= line@.take(e as int));
    assert(value@ =~= line@.skip(e + 1));
    if is_allowed(allowed, &key) {
        Some((key, value))
    } else {
        None
    }
}

/// The `KEY=VALUE` lines of `systemctl --user show-environment` output whose
/// key is one of `allowed`, in output order, split at the first `=`.
pub fn environment_assignments(output: &Vec<u8>, allowed: &Vec<Vec<u8>>) -> (res: Vec<(Vec<u8>, Vec<u8>)>)
    ensures
        pair_views(res@) == allowed_assignments(text_lines(output@), byte_views(allowed@)),
{
    let ghost a = byte_views(allowed@);
    let n = output.len();
    let mut res: Vec<(Vec<u8>, Vec<u8>)> = Vec::new();
    let mut pos: usize = 0;
    assert(output@.skip(0) =~= output@);
    while pos < n
        invariant
            n == output@.len(),
            0 <= pos <= n,
            a == byte_views(allowed@),
            pair_views(res@) + allowed_assignments(text_lines(output@.skip(pos as int)), a)
                == allowed_assignments(text_lines(output@), a),
        decreases n - pos,
    {
        let ghost s = output@.skip(pos as int);
        let j = find_byte(output, pos, NEWLINE);
        let ghost rest_before = allowed_assignments(text_lines(s), a);
        let mut line = copy_range(output, pos, j);
        let next: usize;
        if j < n {
            proof {
                assert forall|k: int| 0 <= k < j - pos implies s[k] != NEWLINE by {
                    assert(s[k] == output@[pos + k]);
                }
                lemma_first_index_at(s, NEWLINE, j - pos);
                assert(s.take(j - pos) =~= line@);
                assert(s.skip(j - pos + 1) =~= output@.skip(j + 1));
            }
            let len = line.len();
            if len > 0 && line[len - 1] == CARRIAGE_RETURN {
                line.pop();
            }
            proof {
                assert(line@ == strip_cr(s.take(j - pos)));
                assert(text_lines(s) == seq![line@] + text_lines(output@.skip(j + 1)));
                assert((seq![line@] + text_lines(output@.skip(j + 1))).drop_first() =~= text_lines(output@.skip(j + 1)));
            }
            next = j + 1;
        } else {
            proof {
                assert forall|k: int| 0 <= k < s.len() implies s[k] != NEWLINE by {
                    assert(s[k] == output@[pos + k]);
                }
                lemma_first_index_none(s, NEWLINE);
                assert(s =~= line@);
                assert(text_lines(s) == seq![line@]);
                assert(seq![line@].drop_first() =~= Seq::<Seq<u8>>::empty());
                assert(output@.skip(n as int) =~= Seq::<u8>::empty());
                assert(text_lines(output@.skip(n as int)) == Seq::<Seq<u8>>::empty());
            }
            next = n;
        }
        let ghost after = allowed_assignments(text_lines(output@.skip(next as int)), a);
        let ghost before_res = pair_views(res@);
        match allowed_assignment(&line, allowed) {
            Some(pair) => {
                res.push(pair);
                proof {
                    assert(pair_views(res@) =~= before_res.push((pair.0@, pair.1@)));
                    assert(rest_before == seq![(pair.0@, pair.1@)] + after);
                    assert(pair_views(res@) + after =~= before_res + rest_before);
                }
            },
            None => {
                proof {
                    assert(rest_before == after);
                }
            },
        }
        pos = next;
    }
    proof {
        assert(output@.skip(n as int) =~= Seq::<u8>::empty());
        assert(pair_views(res@) + Seq::<(Seq<u8>, Seq<u8>)>::empty() =~= pair_views(res@));
    }
    res
}

/// Only allowed variables are ever forwarded: every selected assignment has
/// one of the allowed keys.
pub proof fn forwarded_keys_are_allowed(lines: Seq<Seq<u8>>, allowed: Seq<Seq<u8>>)
    ensures
        forall|i: int|
            0 <= i < allowed_assignments(lines, allowed).len() ==> allowed.contains(
                (#[trigger] allowed_assignments(lines, allowed)[i]).0,
            ),
    decreases lines.len(),
{
    if lines.len() > 0 {
        forwarded_keys_are_allowed(lines.drop_first(), allowed);
        let rest = allowed_assignments(lines.drop_first(), allowed);
        match split_assignment(lines[0]) {
            Some((key, value)) => if allowed.contains(key) {
                assert forall|i: int|
                    0 <= i < allowed_assignments(lines, allowed).len() implies allowed.contains(
                    (#[trigger] allowed_assignments(lines, allowed)[i]).0,
                ) by {
                    if i > 0 {
                        assert(allowed_assignments(lines, allowed)[i] == rest[i - 1]);
                    }
                }
            },
            None => {},
        }
    }
}

} // verus!
