use vstd::prelude::*;
use vstd::string::StringExecFns;

verus! {

/// The digit character for `d` in `0..10`.
pub open spec fn digit_char(d: int) -> char {
    seq!['0', '1', '2', '3', '4', '5', '6', '7', '8', '9'][d]
}

/// The decimal writing of `n`, without leading zeros.
pub open spec fn decimal_text(n: nat) -> Seq<char>
    decreases n,
{
    if n < 10 {
        seq![digit_char(n as int)]
    } else {
        decimal_text(n / 10) + seq![digit_char((n % 10) as int)]
    }
}

/// The chat line that user `my_id` is shown to have written: `<User#id>: text`.
pub open spec fn chat_line_text(my_id: u8, text: Seq<char>) -> Seq<char> {
    "<User#"@ + decimal_text(my_id as nat) + ">: "@ + text
}

/// The one-character text of the digit `d`.
fn digit_str(d: u8) -> (s: &'static str)
    requires
        d < 10,
    ensures
        s@ == seq![digit_char(d as int)],
{
    match d {
        0 => {
            proof {
                reveal_strlit("0");
            }
            "0"
        },
        1 => {
            proof {
                reveal_strlit("1");
            }
            "1"
        },
        2 => {
            proof {
                reveal_strlit("2");
            }
            "2"
        },
        3 => {
            proof {
                reveal_strlit("3");
            }
            "3"
        },
        4 => {
            proof {
                reveal_strlit("4");
            }
            "4"
        },
        5 => {
            proof {
                reveal_strlit("5");
            }
            "5"
        },
        6 => {
            proof {
                reveal_strlit("6");
            }
            "6"
        },
        7 => {
            proof {
                reveal_strlit("7");
            }
            "7"
        },
        8 => {
            proof {
                reveal_strlit("8");
            }
            "8"
        },
        _ => {
            proof {
                reveal_strlit("9");
            }
            "9"
        },
    }
}

/// The decimal writing of `n`, as `{}` formats it.
pub fn decimal_string(n: u8) -> (s: String)
    ensures
        s@ == decimal_text(n as nat),
{
    let mut s = String::new();
    if n < 10 {
        s.append(digit_str(n));
    } else if n < 100 {
        s.append(digit_str(n / 10));
        s.append(digit_str(n % 10));
        assert(decimal_text((n / 10) as nat) == seq![digit_char((n / 10) as int)]);
    } else {
        s.append(digit_str(n / 100));
        s.append(digit_str((n / 10) % 10));
        s.append(digit_str(n % 10));
        assert(decimal_text((n / 100) as nat) == seq![digit_char((n / 100) as int)]);
        assert((n / 10) / 10 == n / 100);
        assert(decimal_text((n / 10) as nat) == seq![digit_char((n / 100) as int)] + seq![
            digit_char(((n / 10) % 10) as int),
        ]);
    }
    assert(s@ =~= decimal_text(n as nat));
    s
}

/// The line that the other users see when user `my_id` writes `text`.
pub fn chat_line(my_id: u8, text: &str) -> (line: String)
    ensures
        line@ == chat_line_text(my_id, text@),
{
    let mut line = String::from_str("<User#");
    let id = decimal_string(my_id);
    line.append(id.as_str());
    line.append(">: ");
    line.append(text);
    line
}

/// The users a line from `sender` goes to: every connected user but the sender,
/// in the order given.
pub fn chat_recipients(ids: &Vec<u8>, sender: u8) -> (to: Vec<u8>)
    ensures
        to@ == ids@.filter(|u: u8| u != sender),
{
    let mut to: Vec<u8> = Vec::new();
    let mut i: usize = 0;
    while i < ids.len()
        invariant
            i <= ids@.len(),
            to@ == ids@.take(i as int).filter(|u: u8| u != sender),
        decreases ids@.len() - i,
    {
        reveal_with_fuel(Seq::<_>::filter, 1);
        assert(ids@.take(i + 1).drop_last() =~= ids@.take(i as int));
        if ids[i] != sender {
            to.push(ids[i]);
        }
        i = i + 1;
    }
    assert(ids@.take(ids@.len() as int) =~= ids@);
    to
}

} // verus!
