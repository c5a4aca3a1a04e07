//! Reading requests from text: the lines a user types at the client, and the
//! lines of the append-only file that the server replays.

use vstd::prelude::*;

use crate::request::{
    bare_request, del_request, get_request, set_request, ClientCommand, ClientCommandView,
    RedisRequest, RequestType, RequestView,
};
use crate::words::{lemma_split_nonempty, split_spec, split_words, words_view};

verus! {

pub open spec fn ping_word() -> Seq<char> {
    seq!['P', 'I', 'N', 'G']
}

pub open spec fn set_word() -> Seq<char> {
    seq!['S', 'E', 'T']
}

pub open spec fn get_word() -> Seq<char> {
    seq!['G', 'E', 'T']
}

pub open spec fn del_word() -> Seq<char> {
    seq!['D', 'E', 'L']
}

pub open spec fn exit_word() -> Seq<char> {
    seq!['e', 'x', 'i', 't']
}

/// What a client line asks for. The first word picks the command: `PING`
/// with any arguments, `SET key value`, `GET key`, `DEL` with any number of
/// keys, or `exit` alone; anything else is an illegal request.
pub open spec fn client_command_spec(line: Seq<char>) -> ClientCommandView {
    let ws = split_spec(line);
    if ws[0] == ping_word() {
        ClientCommandView::Send(bare_request(RequestType::Ping))
    } else if ws[0] == set_word() && ws.len() == 3 {
        ClientCommandView::Send(set_request(ws[1], ws[2]))
    } else if ws[0] == get_word() && ws.len() == 2 {
        ClientCommandView::Send(get_request(ws[1]))
    } else if ws[0] == del_word() {
        ClientCommandView::Send(del_request(ws.skip(1)))
    } else if ws[0] == exit_word() && ws.len() == 1 {
        ClientCommandView::Exit
    } else {
        ClientCommandView::Send(bare_request(RequestType::Illegal))
    }
}

/// The operation that a line of the append-only file records: `SET key value`
/// or `DEL` with any number of keys; any other line is an illegal request.
pub open spec fn aof_operation_spec(line: Seq<char>) -> RequestView {
    let ws = split_spec(line);
    if ws[0] == set_word() && ws.len() == 3 {
        set_request(ws[1], ws[2])
    } else if ws[0] == del_word() {
        del_request(ws.skip(1))
    } else {
        bare_request(RequestType::Illegal)
    }
}

/// Whether `w` is the text `lit`.
fn word_is(w: &String, lit: &str) -> (b: bool)
    ensures
        b == (w@ == lit@),
{
    let l = lit.to_owned();
    w.eq(&l)
}

/// The words of `ws` from index 1 on, copied.
fn tail_words(ws: &Vec<String>) -> (tail: Vec<String>)
    requires
        ws.len() >= 1,
    ensures
        words_view(tail@) == words_view(ws@).skip(1),
{
    let mut tail: Vec<String> = Vec::new();
    let mut i: usize = 1;
    while i < ws.len()
        invariant
            1 <= i <= ws.len(),
            words_view(tail@) =~= words_view(ws@).subrange(1, i as int),
        decreases ws.len() - i,
    {
        let w = ws[i].clone();
        let ghost before = tail@;
        tail.push(w);
        assert(words_view(tail@) =~= words_view(before).push(ws@[i as int]@));
        i = i + 1;
    }
    assert(words_view(ws@).subrange(1, ws.len() as int) =~= words_view(ws@).skip(1));
    tail
}

/// Classifies the first word of a split line.
fn first_word_kind(w: &String) -> (k: u8)
    ensures
        k == 0 <==> w@ == ping_word(),
        k == 1 <==> w@ == set_word(),
        k == 2 <==> w@ == get_word(),
        k == 3 <==> w@ == del_word(),
        k == 4 <==> w@ == exit_word(),
        k <= 5,
{
    proof {
        reveal_strlit("PING");
        reveal_strlit("SET");
        reveal_strlit("GET");
        reveal_strlit("DEL");
        reveal_strlit("exit");
        assert("PING"@ =~= ping_word());
        assert("SET"@ =~= set_word());
        assert("GET"@ =~= get_word());
        assert("DEL"@ =~= del_word());
        assert("exit"@ =~= exit_word());
        assert(ping_word() != set_word() && ping_word()[0] != get_word()[0] && ping_word()[0] != del_word()[0] && ping_word() != exit_word());
        assert(set_word()[0] != get_word()[0] && set_word()[0] != del_word()[0] && set_word() != exit_word());
        assert(get_word()[0] != del_word()[0] && get_word() != exit_word());
        assert(del_word() != exit_word());
    }
    if word_is(w, "PING") {
        0
    } else if word_is(w, "SET") {
        1
    } else if word_is(w, "GET") {
        2
    } else if word_is(w, "DEL") {
        3
    } else if word_is(w, "exit") {
        4
    } else {
        5
    }
}

/// Reads the command that a user typed at the client (the line without its
/// end-of-line character).
pub fn parse_client_command(input: &str) -> (cmd: ClientCommand)
    ensures
        cmd@ == client_command_spec(input@),
{
    let ws = split_words(input);
    proof {
        lemma_split_nonempty(input@);
    }
    let kind = first_word_kind(&ws[0]);
    if kind == 0 {
        ClientCommand::Send(RedisRequest { key: None, value: None, request_type: RequestType::Ping })
    } else if kind == 1 && ws.len() == 3 {
        let k = ws[1].clone();
        let v = ws[2].clone();
        let keys = vec![k];
        assert(words_view(keys@) =~= seq![k@]);
        ClientCommand::Send(
            RedisRequest { key: Some(keys), value: Some(v), request_type: RequestType::SetValue },
        )
    } else if kind == 2 && ws.len() == 2 {
        let k = ws[1].clone();
        let keys = vec![k];
        assert(words_view(keys@) =~= seq![k@]);
        ClientCommand::Send(
            RedisRequest { key: Some(keys), value: None, request_type: RequestType::Get },
        )
    } else if kind == 3 {
        let keys = tail_words(&ws);
        ClientCommand::Send(
            RedisRequest { key: Some(keys), value: None, request_type: RequestType::Del },
        )
    } else if kind == 4 && ws.len() == 1 {
        ClientCommand::Exit
    } else {
        ClientCommand::Send(
            RedisRequest { key: None, value: None, request_type: RequestType::Illegal },
        )
    }
}

/// Reads the operation recorded on a line of the append-only file.
pub fn parse_redis_operation(operation_str: &String) -> (req: RedisRequest)
    ensures
        req@ == aof_operation_spec(operation_str@),
{
    let ws = split_words(operation_str.as_str());
    proof {
        lemma_split_nonempty(operation_str@);
    }
    let kind = first_word_kind(&ws[0]);
    if kind == 1 && ws.len() == 3 {
        let k = ws[1].clone();
        let v = ws[2].clone();
        let keys = vec![k];
        assert(words_view(keys@) =~= seq![k@]);
        RedisRequest { key: Some(keys), value: Some(v), request_type: RequestType::SetValue }
    } else if kind == 3 {
        let keys = tail_words(&ws);
        RedisRequest { key: Some(keys), value: None, request_type: RequestType::Del }
    } else {
        RedisRequest { key: None, value: None, request_type: RequestType::Illegal }
    }
}

} // verus!
