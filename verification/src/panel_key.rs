//! The key under which the state of a terminal panel is stored.

use vstd::prelude::*;

verus! {

/// The decimal digit for a number below ten.
pub open spec fn digit(value: nat) -> char {
    ('0' as nat + value) as char
}

/// A number in decimal digits, without leading zeros.
pub open spec fn decimal(value: nat) -> Seq<char>
    decreases value,
{
    if value < 10 {
        seq![digit(value)]
    } else {
        decimal(value / 10).push(digit(value % 10))
    }
}

/// A number in decimal digits, with a minus sign in front of them if it is negative.
pub open spec fn signed_decimal(value: int) -> Seq<char> {
    if value < 0 {
        seq!['-'] + decimal((-value) as nat)
    } else {
        decimal(value as nat)
    }
}

/// The key for the panel of a workspace: the name of the panel and the id of the workspace, each
/// in quotes.
pub open spec fn panel_key(workspace_id: i64) -> Seq<char> {
    "\"TerminalPanel\"-\""@ + signed_decimal(workspace_id as int) + "\""@
}

fn digit_text(value: u64) -> (text: &'static str)
    requires
        value < 10,
    ensures
        text@ == seq![digit(value as nat)],
{
    proof {
        reveal_strlit("0");
        reveal_strlit("1");
        reveal_strlit("2");
        reveal_strlit("3");
        reveal_strlit("4");
        reveal_strlit("5");
        reveal_strlit("6");
        reveal_strlit("7");
        reveal_strlit("8");
        reveal_strlit("9");
    }
    let text = match value {
        0 => "0",
        1 => "1",
        2 => "2",
        3 => "3",
        4 => "4",
        5 => "5",
        6 => "6",
        7 => "7",
        8 => "8",
        _ => "9",
    };
    assert(text@ =~= seq![digit(value as nat)]);
    text
}

fn append_decimal(text: &mut String, value: u64)
    ensures
        final(text)@ == old(text)@ + decimal(value as nat),
    decreases value,
{
    if value >= 10 {
        append_decimal(text, value / 10);
    }
    text.append(digit_text(value % 10));
    assert(text@ =~= old(text)@ + decimal(value as nat));
}

/// The key under which the state of the terminal panel of a workspace is stored.
pub fn terminal_panel_key(workspace_id: i64) -> (key: String)
    ensures
        key@ == panel_key(workspace_id),
{
    let mut key = "\"TerminalPanel\"-\"".to_owned();
    let ghost start = key@;
    if workspace_id < 0 {
        key.append("-");
        append_decimal(&mut key, (-(workspace_id as i128)) as u64);
        proof {
            reveal_strlit("-");
            assert("-"@ =~= seq!['-']);
            assert(key@ =~= start + signed_decimal(workspace_id as int));
        }
    } else {
        append_decimal(&mut key, workspace_id as u64);
    }
    key.append("\"");
    key
}

/// The number that a sequence of decimal digits stands for.
pub open spec fn value_of(digits: Seq<char>) -> int
    decreases digits.len(),
{
    if digits.len() == 0 {
        0
    } else {
        value_of(digits.drop_last()) * 10 + (digits.last() as int - '0' as int)
    }
}

proof fn lemma_value_of_decimal(value: nat)
    ensures
        value_of(decimal(value)) == value,
        decimal(value).len() > 0,
        decimal(value)[0] != '-',
    decreases value,
{
    if value < 10 {
        assert(decimal(value).drop_last() =~= Seq::empty());
        assert(value_of(decimal(value).drop_last()) == 0);
    } else {
        lemma_value_of_decimal(value / 10);
        assert(decimal(value).drop_last() =~= decimal(value / 10));
        assert(decimal(value)[0] == decimal(value / 10)[0]);
    }
}

proof fn lemma_signed_decimal_is_injective(first: int, second: int)
    requires
        signed_decimal(first) == signed_decimal(second),
    ensures
        first == second,
{
    let first_digits = decimal(if first < 0 { -first } else { first } as nat);
    let second_digits = decimal(if second < 0 { -second } else { second } as nat);
    lemma_value_of_decimal(if first < 0 { -first } else { first } as nat);
    lemma_value_of_decimal(if second < 0 { -second } else { second } as nat);
    if first < 0 {
        assert(signed_decimal(first)[0] == '-');
        assert(signed_decimal(first).skip(1) =~= first_digits);
    }
    if second < 0 {
        assert(signed_decimal(second)[0] == '-');
        assert(signed_decimal(second).skip(1) =~= second_digits);
    }
}

/// The panels of different workspaces are stored under different keys.
pub proof fn law_panel_keys_differ(first: i64, second: i64)
    ensures
        panel_key(first) == panel_key(second) <==> first == second,
{
    if panel_key(first) == panel_key(second) {
        let start = "\"TerminalPanel\"-\""@;
        let end = "\""@;
        let first_text = signed_decimal(first as int);
        let second_text = signed_decimal(second as int);
        let from = start.len() as int;
        assert(panel_key(first).len() == from + first_text.len() + end.len());
        assert(panel_key(second).len() == from + second_text.len() + end.len());
        let to = from + first_text.len();
        assert(panel_key(first).subrange(from, to) =~= first_text);
        assert(panel_key(second).subrange(from, to) =~= second_text);
        lemma_signed_decimal_is_injective(first as int, second as int);
    }
}

/// Whether a text is a number in decimal digits, without leading zeros.
pub open spec fn is_decimal(text: Seq<char>) -> bool {
    &&& text.len() > 0
    &&& forall|i: int| 0 <= i < text.len() ==> '0' <= #[trigger] text[i] <= '9'
    &&& text.len() > 1 ==> text[0] != '0'
}

proof fn lemma_decimal_is_decimal(value: nat)
    ensures
        is_decimal(decimal(value)),
        decimal(value)[0] == '0' ==> value == 0,
    decreases value,
{
    if value >= 10 {
        lemma_decimal_is_decimal(value / 10);
    }
}

/// The key of a panel tells the workspace: behind the name of the panel stands, in quotes, the id
/// in decimal digits, with a minus sign in front of them if and only if it is negative.
pub proof fn law_panel_key_tells_the_workspace(workspace_id: i64)
    ensures
        ({
            let start = "\"TerminalPanel\"-\""@;
            let key = panel_key(workspace_id);
            let text = key.subrange(start.len() as int, key.len() - 1);
            &&& key.len() > start.len() + 1
            &&& key.take(start.len() as int) == start
            &&& key.last() == '"'
            &&& workspace_id >= 0 ==> is_decimal(text) && value_of(text) == workspace_id
            &&& workspace_id < 0 ==> text[0] == '-' && is_decimal(text.skip(1)) && value_of(
                text.skip(1),
            ) == -workspace_id
        }),
{
    let start = "\"TerminalPanel\"-\""@;
    let key = panel_key(workspace_id);
    let text = signed_decimal(workspace_id as int);
    reveal_strlit("\"");
    assert("\""@ =~= seq!['"']);
    assert(key.take(start.len() as int) =~= start);
    assert(key.subrange(start.len() as int, key.len() - 1) =~= text);
    if workspace_id >= 0 {
        lemma_value_of_decimal(workspace_id as nat);
        lemma_decimal_is_decimal(workspace_id as nat);
    } else {
        lemma_value_of_decimal((-workspace_id) as nat);
        lemma_decimal_is_decimal((-workspace_id) as nat);
        assert(text.skip(1) =~= decimal((-workspace_id) as nat));
    }
}

} // verus!
