//! What holds of numbers, fields and messages, said of their characters.

use vstd::prelude::*;

use crate::host;
use crate::laws;
use crate::message;
use crate::message::{MessageErrorView, MessageView};
use crate::state::NotificationType;
use crate::text;

verus! {

// Text

/// Two pieces of text are joined with one space.
pub proof fn law_one_space_between(left: Seq<char>, right: Seq<char>)
    ensures
        text::spaced(left, right) == left + seq![' '] + right,
{
}

/// Decimal notation, digit by digit.
pub proof fn law_decimal_notation(n: nat, d: nat)
    requires
        d < 10,
    ensures
        text::decimal(d) == seq![(48 + d) as char],
        n > 0 ==> text::decimal(10 * n + d) == text::decimal(n).push((48 + d) as char),
        '0' as nat == 48,
{
    if n > 0 {
        assert((10 * n + d) / 10 == n);
        assert((10 * n + d) % 10 == d);
    }
}

/// The number of a tab without a name is its position counted from one.
pub proof fn law_numbered_name(position: usize)
    ensures
        host::numbered_name(position) == "Tab #"@ + text::decimal((position + 1) as nat),
{
}

/// A number is read digit by digit: no digits are no number, one more digit makes the number ten
/// times as large and adds the digit, anything else makes it none, and so does a number that does
/// not fit into 32 bits. One plus sign may stand before the digits.
pub proof fn law_number_digit_by_digit(s: Seq<char>, c: char)
    ensures
        text::number_in(seq![]) is None,
        '0' <= c <= '9' ==> text::number_in(seq![c]) == Some((c as nat - 48) as u32),
        !('0' <= c <= '9') ==> text::number_in(s.push(c)) is None,
        '0' <= c <= '9' ==> match text::number_in(s) {
            Some(v) => text::number_in(s.push(c)) == if 10 * v + (c as nat - 48) <= u32::MAX {
                Some((10 * v + (c as nat - 48)) as u32)
            } else {
                None
            },
            None => s.len() > 0 && s != seq!['+'] ==> text::number_in(s.push(c)) is None,
        },
        text::number_in(seq!['+'] + s) == if s.len() > 0 && s[0] == '+' {
            None
        } else {
            text::number_in(s)
        },
{
    let one = seq![c];
    reveal_with_fuel(text::digits_value, 2);
    assert(one.drop_last() =~= seq![]);
    assert(one[0] == c);
    let longer = s.push(c);
    assert(longer[longer.len() - 1] == c);
    let digits = text::unsigned_part(longer);
    if !('0' <= c <= '9') {
        if digits.len() > 0 {
            assert(digits[digits.len() - 1] == c);
        }
    } else {
        if s.len() == 0 {
            assert(longer =~= one);
        } else {
            let shorter = text::unsigned_part(s);
            assert(digits =~= shorter.push(c));
            assert(digits.drop_last() =~= shorter);
            assert(digits.last() == c);
            assert(text::digits_value(digits) == text::digits_value(shorter) * 10 + (c as nat
                - 48));
            if shorter.len() == 0 {
                assert(s =~= seq!['+']);
            } else {
                if text::all_digits(digits) {
                    assert forall|i: int| 0 <= i < shorter.len() implies text::is_digit(
                        #[trigger] shorter[i],
                    ) by {
                        assert(digits[i] == shorter[i]);
                    }
                }
                if text::all_digits(shorter) {
                    assert forall|i: int| 0 <= i < digits.len() implies text::is_digit(
                        #[trigger] digits[i],
                    ) by {
                        if i < shorter.len() {
                            assert(digits[i] == shorter[i]);
                        }
                    }
                }
            }
        }
    }
    let plus = seq!['+'] + s;
    assert(plus.skip(1) =~= s);
    assert(text::unsigned_part(plus) == s);
    if s.len() > 0 && s[0] == '+' {
        assert(!text::is_digit(s[0]));
    }
}

/// The first place of a separator is the least index at which it stands.
pub proof fn law_first_place(s: Seq<char>, sep: Seq<char>, i: int)
    requires
        0 <= i <= s.len() - sep.len(),
        s.subrange(i, i + sep.len()) == sep,
        forall|j: int| 0 <= j < i ==> #[trigger] s.subrange(j, j + sep.len()) != sep,
    ensures
        text::first_occurrence(s, sep) == Some(i),
{
    assert forall|j: int| 0 <= j < i implies !text::occurs_at(s, sep, j) by {
        assert(s.subrange(j, j + sep.len()) != sep);
    }
    text::lemma_first_occurrence(s, sep, i);
}

/// A text without the separator has no place of it, and is one piece.
pub proof fn law_one_piece(s: Seq<char>, sep: Seq<char>)
    requires
        forall|j: int| 0 <= j <= s.len() - sep.len() ==> #[trigger] s.subrange(j, j + sep.len()) != sep,
    ensures
        text::first_occurrence(s, sep) is None,
        text::pieces(s, sep) == seq![s],
{
    assert forall|j: int| !text::occurs_at(s, sep, j) by {
        if text::occurs_at(s, sep, j) {
            assert(s.subrange(j, j + sep.len()) != sep);
        }
    }
}

/// The piece before the first separator comes first, and the pieces of the text behind it follow.
pub proof fn law_first_piece(first: Seq<char>, sep: Seq<char>, rest: Seq<char>)
    requires
        sep.len() > 0,
        forall|j: int|
            0 <= j < first.len() ==> #[trigger] (first + sep + rest).subrange(j, j + sep.len())
                != sep,
    ensures
        text::pieces(first + sep + rest, sep) == seq![first] + text::pieces(rest, sep),
{
    let whole = first + sep + rest;
    let n = first.len() as int;
    assert(whole.subrange(n, n + sep.len()) =~= sep);
    law_first_place(whole, sep, n);
    assert(whole.take(n) =~= first);
    assert(whole.skip(n + sep.len()) =~= rest);
}

// Messages

/// The fields of a message stand between double colons.
pub proof fn law_fields_stand_between_double_colons(whole: Seq<char>)
    ensures
        message::fields_of(whole) == text::pieces(whole, "::"@),
{
}

/// A message counts if the name of its pipe starts with the plugin's address, or else if its
/// payload does; it means what its fields mean, of which the second one is taken in lower case.
pub proof fn law_which_text_counts(
    name: Seq<char>,
    payload: Option<Seq<char>>,
    lower: spec_fn(Seq<char>) -> Seq<char>,
)
    ensures
        ({
            let address = "zellij-attention::"@;
            let read = |whole: Seq<char>|
                message::meaning(
                    text::pieces(whole, "::"@),
                    lower(text::pieces(whole, "::"@)[1]),
                );
            message::meaning_of(name, payload, lower) == if address.is_prefix_of(name) {
                read(name)
            } else {
                match payload {
                    Some(sent) => if address.is_prefix_of(sent) {
                        read(sent)
                    } else {
                        MessageView::Ignored
                    },
                    None => MessageView::Ignored,
                }
            }
        }),
{
}

/// What the fields of a message mean: it must have three of them; the third must be a number, which
/// is the pane; the event must be waiting or completed. Fields behind the third do not count.
pub proof fn law_meaning_of_fields(fields: Seq<Seq<char>>, event: Seq<char>)
    ensures
        fields.len() < 3 ==> message::meaning(fields, event) == MessageView::Rejected(
            MessageErrorView::InvalidFormat,
        ),
        fields.len() >= 3 && text::number_in(fields[2]) is None ==> message::meaning(fields, event)
            == MessageView::Rejected(MessageErrorView::InvalidPaneId(fields[2])),
        fields.len() >= 3 && text::number_in(fields[2]) is Some ==> ({
            let pane = text::number_in(fields[2])->0;
            &&& event == "waiting"@ ==> message::meaning(fields, event) == (MessageView::Notify {
                pane,
                kind: NotificationType::Waiting,
            })
            &&& event == "completed"@ ==> message::meaning(fields, event) == (MessageView::Notify {
                pane,
                kind: NotificationType::Completed,
            })
            &&& event != "waiting"@ && event != "completed"@ ==> message::meaning(fields, event)
                == MessageView::Rejected(MessageErrorView::UnknownEvent(event))
        }),
{
    reveal_strlit("waiting");
    reveal_strlit("completed");
    assert("waiting"@ != "completed"@) by {
        assert("waiting"@.len() != "completed"@.len());
    }
}

/// The names of the two kinds of notifications.
pub proof fn law_names_of_kinds(name: Seq<char>)
    ensures
        message::kind_of(name) == Some(NotificationType::Waiting) <==> name == "waiting"@,
        message::kind_of(name) == Some(NotificationType::Completed) <==> name == "completed"@,
{
    reveal_strlit("waiting");
    reveal_strlit("completed");
    assert("waiting"@ != "completed"@) by {
        assert("waiting"@.len() != "completed"@.len());
    }
}

/// A message in the documented format notifies its pane if the event in lower case is waiting or
/// completed, and is refused as unknown otherwise, whether it is the name of the pipe or its
/// payload.
pub proof fn law_event_types_notify(
    event: Seq<char>,
    pane: u32,
    name: Seq<char>,
    lower: spec_fn(Seq<char>) -> Seq<char>,
)
    requires
        forall|i: int| 0 <= i < event.len() ==> #[trigger] event[i] != ':',
        !"zellij-attention::"@.is_prefix_of(name),
    ensures
        ({
            let whole = "zellij-attention::"@ + event + "::"@ + text::decimal(pane as nat);
            let meaning = if lower(event) == "waiting"@ {
                MessageView::Notify { pane, kind: NotificationType::Waiting }
            } else if lower(event) == "completed"@ {
                MessageView::Notify { pane, kind: NotificationType::Completed }
            } else {
                MessageView::Rejected(MessageErrorView::UnknownEvent(lower(event)))
            };
            &&& message::meaning_of(whole, None, lower) == meaning
            &&& message::meaning_of(name, Some(whole), lower) == meaning
        }),
{
    laws::law_format_is_understood(event, pane, None, lower);
    assert(laws::message_text(event, pane) == "zellij-attention::"@ + event + "::"@ + text::decimal(
        pane as nat,
    ));
    laws::law_payload_counts_like_name(name, laws::message_text(event, pane), lower);
}

/// In lower case the ASCII capitals are the small letters, 32 places further on, and every other
/// character stays.
pub proof fn law_ascii_lower_case(s: Seq<char>, i: int)
    requires
        0 <= i < s.len(),
    ensures
        message::ascii_lowercase(s).len() == s.len(),
        message::ascii_lowercase(s)[i] as nat == if 'A' <= s[i] <= 'Z' {
            s[i] as nat + 32
        } else {
            s[i] as nat
        },
{
}

/// The event type of a message is ASCII if no character of its second field is beyond.
pub proof fn law_ascii_event(name: Seq<char>, payload: Option<Seq<char>>)
    requires
        ({
            let field = text::pieces(name, "::"@)[1];
            "zellij-attention::"@.is_prefix_of(name) ==> forall|i: int|
                0 <= i < field.len() ==> '\0' <= #[trigger] field[i] <= '\u{7f}'
        }),
        ({
            let field = text::pieces(payload->0, "::"@)[1];
            payload is Some && "zellij-attention::"@.is_prefix_of(payload->0) ==> forall|i: int|
                0 <= i < field.len() ==> '\0' <= #[trigger] field[i] <= '\u{7f}'
        }),
    ensures
        message::ascii_event(name, payload),
{
    match message::addressed_text(name, payload) {
        Some(whole) => {
            let field = message::fields_of(whole)[1];
            assert forall|i: int| 0 <= i < field.len() implies '\0' <= #[trigger] field[i]
                <= '\u{7f}' by {}
        },
        None => {},
    }
}

} // verus!
