//! Properties of parsing and replay that hold for all inputs.

use vstd::prelude::*;

use crate::parse::{
    aof_operation_spec, client_command_spec, del_word, exit_word, get_word, ping_word, set_word,
};
use crate::request::{ClientCommandView, RequestType, RequestView};
use crate::store::{apply_spec, replay_spec};
use crate::words::{lemma_split_nonempty, split_spec};

verus! {

/// The words of `ws` written one after another with a single space between
/// neighbours.
pub open spec fn join_words(ws: Seq<Seq<char>>) -> Seq<char>
    decreases ws.len(),
{
    if ws.len() == 0 {
        Seq::<char>::empty()
    } else if ws.len() == 1 {
        ws[0]
    } else {
        join_words(ws.drop_last()) + seq![' '] + ws.last()
    }
}

/// Whether no word of `ws` holds a space.
pub open spec fn no_spaces(ws: Seq<Seq<char>>) -> bool {
    forall|i: int| 0 <= i < ws.len() ==> !(#[trigger] ws[i]).contains(' ')
}

/// What the server takes from a client command: `SET` and `DEL` requests
/// unchanged, an illegal request for anything else.
pub open spec fn server_side(c: ClientCommandView) -> RequestView {
    match c {
        ClientCommandView::Send(r) => if r.request_type == RequestType::SetValue
            || r.request_type == RequestType::Del {
            r
        } else {
            (RequestView { key: None, value: None, request_type: RequestType::Illegal })
        },
        ClientCommandView::Exit => (RequestView { key: None, value: None, request_type: RequestType::Illegal }),
    }
}

proof fn lemma_split_single(w: Seq<char>)
    requires
        !w.contains(' '),
    ensures
        split_spec(w) == seq![w],
    decreases w.len(),
{
    if w.len() > 0 {
        let p = w.drop_last();
        assert(!p.contains(' ')) by {
            if p.contains(' ') {
                let j = choose|j: int| 0 <= j < p.len() && p[j] == ' ';
                assert(w[j] == ' ');
            }
        }
        lemma_split_single(p);
        assert(w.last() != ' ') by {
            assert(w[w.len() - 1] == w.last());
        }
        assert(p.push(w.last()) =~= w);
        assert(split_spec(w) =~= seq![w]);
    } else {
        assert(w =~= Seq::<char>::empty());
    }
}

proof fn lemma_split_concat(x: Seq<char>, y: Seq<char>)
    ensures
        split_spec(x + seq![' '] + y) == split_spec(x) + split_spec(y),
    decreases y.len(),
{
    let s = x + seq![' '] + y;
    if y.len() == 0 {
        assert(s.drop_last() =~= x);
        assert(split_spec(s) =~= split_spec(x) + split_spec(y));
    } else {
        let y1 = y.drop_last();
        assert(s.drop_last() =~= x + seq![' '] + y1);
        assert(s.last() == y.last());
        lemma_split_concat(x, y1);
        lemma_split_nonempty(y1);
        lemma_split_nonempty(x);
        assert(split_spec(s) =~= split_spec(x) + split_spec(y));
    }
}

/// Splitting a line made by joining words with single spaces gives back the
/// words, when there is at least one word and none holds a space.
pub proof fn lemma_split_join(ws: Seq<Seq<char>>)
    requires
        ws.len() >= 1,
        no_spaces(ws),
    ensures
        split_spec(join_words(ws)) == ws,
    decreases ws.len(),
{
    if ws.len() == 1 {
        lemma_split_single(ws[0]);
        assert(seq![ws[0]] =~= ws);
    } else {
        let p = ws.drop_last();
        assert(no_spaces(p)) by {
            assert forall|i: int| 0 <= i < p.len() implies !(#[trigger] p[i]).contains(' ') by {
                assert(p[i] == ws[i]);
            }
        }
        lemma_split_join(p);
        lemma_split_concat(join_words(p), ws.last());
        assert(!ws[ws.len() - 1].contains(' '));
        lemma_split_single(ws.last());
        assert(p + seq![ws.last()] =~= ws);
    }
}

/// A file line `SET key value` reads as the request that sets `key` to
/// `value`, and so does the same line typed at the client.
pub proof fn lemma_set_line_parses(key: Seq<char>, value: Seq<char>)
    requires
        !key.contains(' '),
        !value.contains(' '),
    ensures
        aof_operation_spec(join_words(seq![set_word(), key, value])) == (RequestView { key: Some(seq![key]), value: Some(value), request_type: RequestType::SetValue }),
        client_command_spec(join_words(seq![set_word(), key, value])) == ClientCommandView::Send(
            (RequestView { key: Some(seq![key]), value: Some(value), request_type: RequestType::SetValue }),
        ),
{
    let ws = seq![set_word(), key, value];
    assert(!set_word().contains(' ')) by {
        if set_word().contains(' ') {
            let j = choose|j: int| 0 <= j < set_word().len() && set_word()[j] == ' ';
        }
    }
    assert(no_spaces(ws));
    lemma_split_join(ws);
    assert(set_word() != crate::parse::ping_word());
}

/// A client line `GET key` reads as the request that reads `key`.
pub proof fn lemma_get_line_parses(key: Seq<char>)
    requires
        !key.contains(' '),
    ensures
        client_command_spec(join_words(seq![get_word(), key])) == ClientCommandView::Send(
            (RequestView { key: Some(seq![key]), value: None, request_type: RequestType::Get }),
        ),
        aof_operation_spec(join_words(seq![get_word(), key])) == (RequestView { key: None, value: None, request_type: RequestType::Illegal }),
{
    let ws = seq![get_word(), key];
    assert(!get_word().contains(' ')) by {
        if get_word().contains(' ') {
            let j = choose|j: int| 0 <= j < get_word().len() && get_word()[j] == ' ';
        }
    }
    assert(no_spaces(ws));
    lemma_split_join(ws);
    assert(get_word()[0] != crate::parse::ping_word()[0]);
    assert(get_word()[0] != set_word()[0]);
    assert(get_word()[0] != del_word()[0]);
}

/// A file line `DEL k1 ... kn` reads as the request that deletes `k1` to
/// `kn`, and so does the same line typed at the client.
pub proof fn lemma_del_line_parses(keys: Seq<Seq<char>>)
    requires
        no_spaces(keys),
    ensures
        aof_operation_spec(join_words(seq![del_word()] + keys)) == (RequestView { key: Some(keys), value: None, request_type: RequestType::Del }),
        client_command_spec(join_words(seq![del_word()] + keys)) == ClientCommandView::Send(
            (RequestView { key: Some(keys), value: None, request_type: RequestType::Del }),
        ),
{
    let ws = seq![del_word()] + keys;
    assert(!del_word().contains(' ')) by {
        if del_word().contains(' ') {
            let j = choose|j: int| 0 <= j < del_word().len() && del_word()[j] == ' ';
        }
    }
    assert(no_spaces(ws)) by {
        assert forall|i: int| 0 <= i < ws.len() implies !(#[trigger] ws[i]).contains(' ') by {
            if i > 0 {
                assert(ws[i] == keys[i - 1]);
            }
        }
    }
    lemma_split_join(ws);
    assert(ws.skip(1) =~= keys);
    assert(del_word()[0] != crate::parse::ping_word()[0]);
    assert(del_word()[0] != set_word()[0]);
    assert(del_word()[0] != get_word()[0]);
}

/// The server reads a file line exactly as a client reads the same line, but
/// keeps only `SET` and `DEL` requests: everything else is illegal to it.
pub proof fn lemma_server_reads_as_client(line: Seq<char>)
    ensures
        aof_operation_spec(line) == server_side(client_command_spec(line)),
{
    let w = split_spec(line)[0];
    if w == crate::parse::ping_word() {
        assert(w[0] != set_word()[0]);
        assert(w[0] != del_word()[0]);
    }
    if w == get_word() {
        assert(w[0] != set_word()[0]);
        assert(w[0] != del_word()[0]);
    }
    if w == crate::parse::exit_word() {
        assert(w != set_word());
        assert(w != del_word());
    }
}

/// Replaying two parts of a file one after the other gives the same map as
/// replaying the whole file.
pub proof fn lemma_replay_append(
    m: Map<Seq<char>, Seq<char>>,
    a: Seq<Seq<char>>,
    b: Seq<Seq<char>>,
)
    ensures
        replay_spec(m, a + b) == replay_spec(replay_spec(m, a), b),
    decreases b.len(),
{
    if b.len() == 0 {
        assert(a + b =~= a);
    } else {
        assert((a + b).drop_last() =~= a + b.drop_last());
        assert((a + b).last() == b.last());
        lemma_replay_append(m, a, b.drop_last());
    }
}

/// After a file line `SET key value`, the map holds `value` under `key` and
/// is otherwise what it was before the line.
pub proof fn lemma_read_after_set(
    m: Map<Seq<char>, Seq<char>>,
    lines: Seq<Seq<char>>,
    key: Seq<char>,
    value: Seq<char>,
)
    requires
        !key.contains(' '),
        !value.contains(' '),
    ensures
        replay_spec(m, lines.push(join_words(seq![set_word(), key, value]))) == replay_spec(
            m,
            lines,
        ).insert(key, value),
        replay_spec(m, lines.push(join_words(seq![set_word(), key, value]))).contains_key(key),
        replay_spec(m, lines.push(join_words(seq![set_word(), key, value])))[key] == value,
{
    let l = join_words(seq![set_word(), key, value]);
    lemma_set_line_parses(key, value);
    assert(lines.push(l).drop_last() =~= lines);
}

/// After a file line `DEL k1 ... kn`, none of the keys is in the map, and the
/// map is otherwise what it was before the line.
pub proof fn lemma_read_after_del(
    m: Map<Seq<char>, Seq<char>>,
    lines: Seq<Seq<char>>,
    keys: Seq<Seq<char>>,
)
    requires
        no_spaces(keys),
    ensures
        replay_spec(m, lines.push(join_words(seq![del_word()] + keys))) == replay_spec(
            m,
            lines,
        ).remove_keys(keys.to_set()),
        forall|i: int|
            0 <= i < keys.len() ==> !replay_spec(
                m,
                lines.push(join_words(seq![del_word()] + keys)),
            ).contains_key(#[trigger] keys[i]),
{
    let l = join_words(seq![del_word()] + keys);
    lemma_del_line_parses(keys);
    assert(lines.push(l).drop_last() =~= lines);
    assert forall|i: int| 0 <= i < keys.len() implies !replay_spec(m, lines.push(l)).contains_key(
        #[trigger] keys[i],
    ) by {
        assert(keys.to_set().contains(keys[i]));
    }
}

/// A file line that reads as neither `SET` nor `DEL` leaves the map unchanged.
pub proof fn lemma_other_lines_ignored(
    m: Map<Seq<char>, Seq<char>>,
    lines: Seq<Seq<char>>,
    line: Seq<char>,
)
    requires
        aof_operation_spec(line).request_type != RequestType::SetValue,
        aof_operation_spec(line).request_type != RequestType::Del,
    ensures
        replay_spec(m, lines.push(line)) == replay_spec(m, lines),
{
    assert(lines.push(line).drop_last() =~= lines);
}

/// The command words hold no space.
proof fn lemma_command_words_have_no_space()
    ensures
        !ping_word().contains(' '),
        !set_word().contains(' '),
        !get_word().contains(' '),
        !del_word().contains(' '),
        !exit_word().contains(' '),
{
    assert forall|w: Seq<char>| #[trigger] w.contains(' ') && w.len() <= 4 && (w == ping_word()
        || w == set_word() || w == get_word() || w == del_word() || w == exit_word()) implies false by {
        let j = choose|j: int| 0 <= j < w.len() && w[j] == ' ';
    }
}

/// Joining the fields of a split line with single spaces gives the line back.
pub proof fn lemma_join_split(line: Seq<char>)
    ensures
        join_words(split_spec(line)) == line,
    decreases line.len(),
{
    if line.len() == 0 {
    } else {
        let p = line.drop_last();
        let ws = split_spec(p);
        lemma_join_split(p);
        lemma_split_nonempty(p);
        let c = line.last();
        if c == ' ' {
            let ws2 = ws.push(Seq::<char>::empty());
            assert(ws2.drop_last() =~= ws);
            assert(join_words(ws2) =~= line);
        } else {
            let ws2 = ws.update(ws.len() - 1, ws.last().push(c));
            assert(line =~= p.push(c));
            if ws.len() == 1 {
                assert(ws2[0] == ws[0].push(c));
                assert(join_words(ws) == ws[0]);
                assert(join_words(ws2) == ws2[0]);
                assert(join_words(ws2) =~= line);
            } else {
                assert(ws2.drop_last() =~= ws.drop_last());
                assert(join_words(ws2) =~= join_words(ws.drop_last()) + seq![' '] + ws.last().push(c));
                assert(join_words(ws2) =~= line);
            }
        }
    }
}

/// No field of a split line holds a space.
pub proof fn lemma_split_fields_have_no_space(line: Seq<char>)
    ensures
        no_spaces(split_spec(line)),
    decreases line.len(),
{
    if line.len() > 0 {
        let p = line.drop_last();
        let ws = split_spec(p);
        lemma_split_fields_have_no_space(p);
        lemma_split_nonempty(p);
        let c = line.last();
        let r = split_spec(line);
        assert forall|i: int| 0 <= i < r.len() implies !(#[trigger] r[i]).contains(' ') by {
            if c == ' ' {
                if i < ws.len() {
                    assert(r[i] == ws[i]);
                } else {
                    assert(r[i] == Seq::<char>::empty());
                }
            } else if i < ws.len() - 1 {
                assert(r[i] == ws[i]);
            } else {
                let w = ws[ws.len() - 1];
                assert(!w.contains(' '));
                assert(r[i] == w.push(c));
                if w.push(c).contains(' ') {
                    let j = choose|j: int| 0 <= j < w.push(c).len() && w.push(c)[j] == ' ';
                    if j < w.len() {
                        assert(w[j] == ' ');
                    }
                }
            }
        }
    }
}

/// A client line whose first word is `PING` is a ping with no key and no
/// value, however many words follow.
pub proof fn lemma_ping_any_arguments(line: Seq<char>)
    requires
        split_spec(line)[0] == ping_word(),
    ensures
        client_command_spec(line) == ClientCommandView::Send(
            (RequestView { key: None, value: None, request_type: RequestType::Ping }),
        ),
{
}

/// `PING` followed by any words is a ping with no key and no value.
pub proof fn lemma_ping_line_parses(args: Seq<Seq<char>>)
    requires
        no_spaces(args),
    ensures
        client_command_spec(join_words(seq![ping_word()] + args)) == ClientCommandView::Send(
            (RequestView { key: None, value: None, request_type: RequestType::Ping }),
        ),
{
    let ws = seq![ping_word()] + args;
    lemma_command_words_have_no_space();
    assert(no_spaces(ws)) by {
        assert forall|i: int| 0 <= i < ws.len() implies !(#[trigger] ws[i]).contains(' ') by {
            if i > 0 {
                assert(ws[i] == args[i - 1]);
            }
        }
    }
    lemma_split_join(ws);
    lemma_ping_any_arguments(join_words(ws));
}

/// The client leaves exactly when the line is `exit` and nothing else.
pub proof fn lemma_exit_only_on_exit(line: Seq<char>)
    ensures
        (client_command_spec(line) is Exit) <==> line == exit_word(),
{
    lemma_split_nonempty(line);
    lemma_command_words_have_no_space();
    if line == exit_word() {
        lemma_split_join(seq![exit_word()]);
        assert(split_spec(line) == seq![exit_word()]);
        assert(exit_word() != ping_word());
        assert(exit_word() != set_word());
        assert(exit_word() != get_word());
        assert(exit_word() != del_word());
    }
    if client_command_spec(line) is Exit {
        let ws = split_spec(line);
        assert(ws[0] == exit_word() && ws.len() == 1) by {
            if ws[0] == ping_word() || (ws[0] == set_word() && ws.len() == 3) || (ws[0]
                == get_word() && ws.len() == 2) || ws[0] == del_word() {
            }
        }
        lemma_join_split(line);
        assert(ws =~= seq![exit_word()]);
    }
}

/// A client line that is not `PING ...`, `SET key value`, `GET key`,
/// `DEL ...` or exactly `exit` is sent as an illegal request with no key and
/// no value.
pub proof fn lemma_client_other_lines_illegal(line: Seq<char>)
    requires
        split_spec(line)[0] != ping_word(),
        !(split_spec(line)[0] == set_word() && split_spec(line).len() == 3),
        !(split_spec(line)[0] == get_word() && split_spec(line).len() == 2),
        split_spec(line)[0] != del_word(),
        line != exit_word(),
    ensures
        client_command_spec(line) == ClientCommandView::Send(
            (RequestView { key: None, value: None, request_type: RequestType::Illegal }),
        ),
{
    lemma_exit_only_on_exit(line);
}

/// A request other than `SET` and `DEL` leaves the map exactly as it was.
pub proof fn lemma_apply_other_unchanged(m: Map<Seq<char>, Seq<char>>, r: RequestView)
    requires
        r.request_type != RequestType::SetValue,
        r.request_type != RequestType::Del,
    ensures
        apply_spec(m, r) == m,
{
}

/// Applying a `SET` makes its first key hold its value and leaves every other
/// key as it was.
pub proof fn lemma_apply_set(m: Map<Seq<char>, Seq<char>>, r: RequestView)
    requires
        r.request_type == RequestType::SetValue,
        r.key is Some,
        r.key->0.len() >= 1,
        r.value is Some,
    ensures
        apply_spec(m, r).contains_key(r.key->0[0]),
        apply_spec(m, r)[r.key->0[0]] == r.value->0,
        forall|k: Seq<char>|
            k != r.key->0[0] ==> (#[trigger] apply_spec(m, r).contains_key(k) == m.contains_key(k)
                && (m.contains_key(k) ==> apply_spec(m, r)[k] == m[k])),
{
}

/// Applying a `DEL` removes each of its keys and leaves every other key as it
/// was.
pub proof fn lemma_apply_del(m: Map<Seq<char>, Seq<char>>, r: RequestView)
    requires
        r.request_type == RequestType::Del,
        r.key is Some,
    ensures
        forall|i: int|
            0 <= i < r.key->0.len() ==> !apply_spec(m, r).contains_key(#[trigger] r.key->0[i]),
        forall|k: Seq<char>|
            !r.key->0.contains(k) ==> (#[trigger] apply_spec(m, r).contains_key(k)
                == m.contains_key(k) && (m.contains_key(k) ==> apply_spec(m, r)[k] == m[k])),
{
    assert forall|i: int| 0 <= i < r.key->0.len() implies !apply_spec(m, r).contains_key(
        #[trigger] r.key->0[i],
    ) by {
        assert(r.key->0.to_set().contains(r.key->0[i]));
    }
}

} // verus!
