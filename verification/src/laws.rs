//! What holds of messages, of icons, and of the plugin that keeps icons behind tab names.

use vstd::prelude::*;

use crate::config::ConfigView;
use crate::host;
use crate::host::{EffectView, EventView, PaneInfo, TabView};
use crate::message;
use crate::message::{MessageErrorView, MessageView};
use crate::panes;
use crate::plugin;
use crate::plugin::StateView;
use crate::state::NotificationType;
use crate::text;

verus! {

// Text

proof fn lemma_digit(d: nat)
    requires
        d < 10,
    ensures
        text::is_digit(text::digit_char(d)),
        text::digit_char(d) as nat == 48 + d,
{
}

proof fn lemma_decimal_digits(n: nat)
    ensures
        text::decimal(n).len() > 0,
        text::all_digits(text::decimal(n)),
        text::digits_value(text::decimal(n)) == n,
    decreases n,
{
    reveal_with_fuel(text::digits_value, 2);
    if n < 10 {
        lemma_digit(n);
        assert(text::decimal(n).drop_last() =~= seq![]);
    } else {
        lemma_decimal_digits(n / 10);
        lemma_digit(n % 10);
        assert(text::decimal(n).drop_last() =~= text::decimal(n / 10));
        assert forall|i: int| 0 <= i < text::decimal(n).len() implies text::is_digit(
            #[trigger] text::decimal(n)[i],
        ) by {
            if i < text::decimal(n / 10).len() {
                assert(text::decimal(n)[i] == text::decimal(n / 10)[i]);
            }
        }
    }
}

/// A pane id that is written in decimal notation is read back.
pub proof fn law_number_is_read_back(n: u32)
    ensures
        text::number_in(text::decimal(n as nat)) == Some(n),
{
    lemma_decimal_digits(n as nat);
    let digits = text::decimal(n as nat);
    assert(text::is_digit(digits[0]));
    assert(text::unsigned_part(digits) == digits);
}

/// Trimming removes copies of the suffix from the end and nothing else, and leaves none there.
pub proof fn law_trimmed(s: Seq<char>, suffix: Seq<char>)
    requires
        suffix.len() > 0,
    ensures
        !suffix.is_suffix_of(text::trimmed(s, suffix)),
        text::trimmed(s, suffix).is_prefix_of(s),
        made_of(s.skip(text::trimmed(s, suffix).len() as int), suffix),
        text::trimmed(text::trimmed(s, suffix), suffix) == text::trimmed(s, suffix),
        text::trimmed(s + suffix, suffix) == text::trimmed(s, suffix),
    decreases s.len(),
{
    assert(suffix =~= (s + suffix).subrange(s.len() as int, (s + suffix).len() as int));
    assert((s + suffix).take(s.len() as int) =~= s);
    let t = text::trimmed(s, suffix);
    let taken = s.skip(t.len() as int);
    if suffix.is_suffix_of(s) {
        let shorter = s.take(s.len() - suffix.len());
        law_trimmed(shorter, suffix);
        assert(t =~= shorter.subrange(0, t.len() as int));
        assert(t =~= s.subrange(0, t.len() as int));
        let less = shorter.skip(t.len() as int);
        assert(taken =~= less + suffix);
        assert(suffix =~= taken.subrange(less.len() as int, taken.len() as int));
        assert(taken.take(less.len() as int) =~= less);
    } else {
        assert(taken.len() == 0);
    }
}

/// Whether a text is made of copies of `unit`.
pub open spec fn made_of(s: Seq<char>, unit: Seq<char>) -> bool
    decreases s.len(),
{
    s.len() == 0 || (unit.len() > 0 && unit.is_suffix_of(s) && made_of(
        s.take(s.len() - unit.len()),
        unit,
    ))
}

/// Trimming takes off whatever is made of the suffix.
pub proof fn lemma_trimmed_copies(base: Seq<char>, copies: Seq<char>, suffix: Seq<char>)
    requires
        suffix.len() > 0,
        made_of(copies, suffix),
    ensures
        text::trimmed(base + copies, suffix) == text::trimmed(base, suffix),
    decreases copies.len(),
{
    if copies.len() == 0 {
        assert(base + copies =~= base);
    } else {
        let fewer = copies.take(copies.len() - suffix.len());
        lemma_trimmed_copies(base, fewer, suffix);
        assert(copies =~= fewer + suffix);
        assert((base + fewer) + suffix =~= base + copies);
        law_trimmed(base + fewer, suffix);
    }
}

// Messages

/// Whether a text can be a field of a message.
pub open spec fn is_field(s: Seq<char>) -> bool {
    forall|i: int| 0 <= i < s.len() ==> #[trigger] s[i] != ':'
}

proof fn lemma_separator()
    ensures
        message::separator() == seq![':', ':'],
{
    reveal_strlit("::");
    assert("::"@ =~= seq![':', ':']);
}

proof fn lemma_last_field(field: Seq<char>)
    requires
        is_field(field),
    ensures
        message::fields_of(field) == seq![field],
{
    lemma_separator();
    let sep = message::separator();
    assert forall|i: int| !text::occurs_at(field, sep, i) by {
        if text::occurs_at(field, sep, i) {
            assert(field.subrange(i, i + 2)[0] == field[i]);
            assert(sep[0] == ':');
        }
    }
}

proof fn lemma_first_field(field: Seq<char>, rest: Seq<char>)
    requires
        is_field(field),
    ensures
        message::fields_of(field + message::separator() + rest) == seq![field]
            + message::fields_of(rest),
{
    lemma_separator();
    let sep = message::separator();
    let whole = field + sep + rest;
    let n = field.len() as int;
    assert(whole.subrange(n, n + 2) =~= sep);
    assert forall|i: int| 0 <= i < n implies !text::occurs_at(whole, sep, i) by {
        if text::occurs_at(whole, sep, i) {
            assert(whole.subrange(i, i + 2)[0] == field[i]);
            assert(sep[0] == ':');
        }
    }
    assert(text::occurs_first_at(whole, sep, n));
    text::lemma_first_occurrence(whole, sep, n);
    assert(whole.take(n) =~= field);
    assert(whole.skip(n + 2) =~= rest);
}

proof fn lemma_address()
    ensures
        is_field("zellij-attention"@),
        message::address() == "zellij-attention"@ + message::separator(),
{
    reveal_strlit("zellij-attention");
    reveal_strlit("zellij-attention::");
    lemma_separator();
    assert(message::address() =~= "zellij-attention"@ + message::separator());
}

/// The text of a message about an event in a pane.
pub open spec fn message_text(event: Seq<char>, pane: u32) -> Seq<char> {
    message::address() + event + message::separator() + text::decimal(pane as nat)
}

/// A message in the format `zellij-attention::EVENT_TYPE::PANE_ID` is understood, whatever the
/// pane: it notifies of the event if that is a known one, and is refused with the event's name
/// otherwise.
pub proof fn law_format_is_understood(
    event: Seq<char>,
    pane: u32,
    payload: Option<Seq<char>>,
    lower: spec_fn(Seq<char>) -> Seq<char>,
)
    requires
        is_field(event),
    ensures
        message::meaning_of(message_text(event, pane), payload, lower) == match message::kind_of(
            lower(event),
        ) {
            Some(kind) => MessageView::Notify { pane, kind },
            None => MessageView::Rejected(MessageErrorView::UnknownEvent(lower(event))),
        },
{
    let whole = message_text(event, pane);
    let digits = text::decimal(pane as nat);
    let prefix = "zellij-attention"@;
    let sep = message::separator();
    lemma_address();
    lemma_decimal_digits(pane as nat);
    law_number_is_read_back(pane);
    assert(message::address() =~= whole.subrange(0, message::address().len() as int));
    assert(is_field(digits)) by {
        assert forall|i: int| 0 <= i < digits.len() implies #[trigger] digits[i] != ':' by {
            assert(text::is_digit(digits[i]));
        }
    }
    assert(whole =~= prefix + sep + (event + sep + digits));
    lemma_first_field(prefix, event + sep + digits);
    lemma_first_field(event, digits);
    lemma_last_field(digits);
    assert(message::fields_of(whole) =~= seq![prefix, event, digits]);
}

/// A message is ignored exactly where neither the pipe's name nor the payload starts with the
/// plugin's address.
pub proof fn law_only_addressed_messages_count(
    name: Seq<char>,
    payload: Option<Seq<char>>,
    lower: spec_fn(Seq<char>) -> Seq<char>,
)
    ensures
        message::meaning_of(name, payload, lower) is Ignored <==> !message::address().is_prefix_of(
            name,
        ) && (payload matches Some(text) ==> !message::address().is_prefix_of(text)),
{
}

/// A message in the payload of a pipe with any other name counts like one in the name.
pub proof fn law_payload_counts_like_name(
    name: Seq<char>,
    payload: Seq<char>,
    lower: spec_fn(Seq<char>) -> Seq<char>,
)
    requires
        !message::address().is_prefix_of(name),
    ensures
        message::meaning_of(name, Some(payload), lower) == message::meaning_of(payload, None, lower),
{
}

/// Capitals in the event type of a message do not count.
pub proof fn law_case_does_not_count(a: Seq<char>, b: Seq<char>, pane: u32)
    requires
        is_field(a),
        is_field(b),
        message::ascii_lowercase(a) == message::ascii_lowercase(b),
    ensures
        ({
            let lower = |s: Seq<char>| message::ascii_lowercase(s);
            message::meaning_of(message_text(a, pane), None, lower) == message::meaning_of(
                message_text(b, pane),
                None,
                lower,
            )
        }),
{
    let lower = |s: Seq<char>| message::ascii_lowercase(s);
    law_format_is_understood(a, pane, None, lower);
    law_format_is_understood(b, pane, None, lower);
}

// Icons behind names

/// Whether a text is made of icons, each with the space before it.
pub open spec fn made_of_icons(config: ConfigView, s: Seq<char>) -> bool
    decreases s.len(),
{
    let waiting = plugin::icon_suffix(config.waiting_icon);
    let completed = plugin::icon_suffix(config.completed_icon);
    ||| s.len() == 0
    ||| waiting.is_suffix_of(s) && made_of_icons(config, s.take(s.len() - waiting.len()))
    ||| completed.is_suffix_of(s) && made_of_icons(config, s.take(s.len() - completed.len()))
}

/// Icons behind icons are icons, and so are copies of one icon behind icons.
proof fn lemma_icons_behind_icons(config: ConfigView, a: Seq<char>, b: Seq<char>)
    requires
        made_of_icons(config, a),
        made_of_icons(config, b) || made_of(b, plugin::icon_suffix(config.waiting_icon))
            || made_of(b, plugin::icon_suffix(config.completed_icon)),
    ensures
        made_of_icons(config, a + b),
    decreases b.len(),
{
    let waiting = plugin::icon_suffix(config.waiting_icon);
    let completed = plugin::icon_suffix(config.completed_icon);
    let whole = a + b;
    if b.len() == 0 {
        assert(whole =~= a);
    } else {
        let by_waiting = waiting.is_suffix_of(b) && {
            let rest = b.take(b.len() - waiting.len());
            made_of_icons(config, rest) || made_of(rest, waiting)
        };
        let last = if by_waiting {
            waiting
        } else {
            completed
        };
        let rest = b.take(b.len() - last.len());
        lemma_icons_behind_icons(config, a, rest);
        assert(whole.take(whole.len() - last.len()) =~= a + rest);
        assert(last =~= whole.subrange(whole.len() - last.len(), whole.len() as int));
    }
}

/// What stripping once takes off is made of icons.
proof fn lemma_stripped_once(config: ConfigView, name: Seq<char>)
    ensures
        plugin::stripped_once(config, name).is_prefix_of(name),
        made_of_icons(config, name.skip(plugin::stripped_once(config, name).len() as int)),
{
    let waiting = plugin::icon_suffix(config.waiting_icon);
    let completed = plugin::icon_suffix(config.completed_icon);
    let half = text::trimmed(name, waiting);
    let once = plugin::stripped_once(config, name);
    law_trimmed(name, waiting);
    law_trimmed(half, completed);
    assert(once =~= half.subrange(0, once.len() as int));
    assert(half =~= name.subrange(0, half.len() as int));
    assert(once =~= name.subrange(0, once.len() as int));
    let none = Seq::<char>::empty();
    let inner = half.skip(once.len() as int);
    let outer = name.skip(half.len() as int);
    lemma_icons_behind_icons(config, none, inner);
    assert(none + inner =~= inner);
    lemma_icons_behind_icons(config, inner, outer);
    assert(name.skip(once.len() as int) =~= inner + outer);
}

/// Stripping takes icons off the end and nothing else, and leaves none there: a name without an
/// icon stays as it is, one with an icon gets shorter, and stripping twice is stripping once.
/// Waiting icons come off before completed ones, and that is all where it leaves no icon.
pub proof fn law_stripping(config: ConfigView, name: Seq<char>)
    ensures
        !plugin::has_icon(config, plugin::stripped(config, name)),
        plugin::stripped(config, plugin::stripped(config, name)) == plugin::stripped(config, name),
        plugin::stripped(config, name).is_prefix_of(name),
        made_of_icons(config, name.skip(plugin::stripped(config, name).len() as int)),
        !plugin::has_icon(config, name) ==> plugin::stripped(config, name) == name,
        plugin::has_icon(config, name) ==> plugin::stripped(config, name).len() < name.len(),
        !plugin::has_icon(config, plugin::stripped_once(config, name)) ==> plugin::stripped(
            config,
            name,
        ) == plugin::stripped_once(config, name),
    decreases name.len(),
{
    let once = plugin::stripped_once(config, name);
    let rest = plugin::stripped(config, name);
    plugin::lemma_stripped_once_len(config, name);
    lemma_stripped_once(config, name);
    if plugin::has_icon(config, name) {
        law_stripping(config, once);
        assert(rest =~= once.subrange(0, rest.len() as int));
        assert(once =~= name.subrange(0, once.len() as int));
        assert(rest =~= name.subrange(0, rest.len() as int));
        let inner = once.skip(rest.len() as int);
        let outer = name.skip(once.len() as int);
        lemma_icons_behind_icons(config, inner, outer);
        assert(name.skip(rest.len() as int) =~= inner + outer);
    } else {
        assert(once =~= name.subrange(0, once.len() as int));
        assert(once =~= name);
        assert(name.skip(rest.len() as int).len() == 0);
    }
}

/// Whether stripping takes the icon of this kind off the name `base` again. It always does for
/// the waiting icon. What was put on with the completed icon must not end like the waiting icon,
/// which comes off first, unless the completed icon is made of waiting icons.
pub open spec fn comes_off(config: ConfigView, base: Seq<char>, kind: NotificationType) -> bool {
    let waiting = plugin::icon_suffix(config.waiting_icon);
    let completed = plugin::icon_suffix(config.completed_icon);
    match kind {
        NotificationType::Waiting => true,
        NotificationType::Completed => !waiting.is_suffix_of(base + completed) || made_of(
            completed,
            waiting,
        ),
    }
}

/// A name with an icon put behind it ends with that icon.
proof fn lemma_icon_is_put_on(config: ConfigView, base: Seq<char>, kind: NotificationType)
    ensures
        text::spaced(base, config.icon(kind)) == base + plugin::icon_suffix(config.icon(kind)),
        plugin::icon_suffix(config.icon(kind)).is_suffix_of(text::spaced(base, config.icon(kind))),
        plugin::has_icon(config, text::spaced(base, config.icon(kind))),
{
    let suffix = plugin::icon_suffix(config.icon(kind));
    let name = text::spaced(base, config.icon(kind));
    assert(name =~= base + suffix);
    assert(suffix =~= name.subrange(base.len() as int, name.len() as int));
}

/// Stripping undoes putting an icon behind a name that has none.
pub proof fn law_icon_comes_off(config: ConfigView, base: Seq<char>, kind: NotificationType)
    requires
        !plugin::has_icon(config, base),
        comes_off(config, base, kind),
    ensures
        plugin::stripped(config, text::spaced(base, config.icon(kind))) == base,
{
    let waiting = plugin::icon_suffix(config.waiting_icon);
    let completed = plugin::icon_suffix(config.completed_icon);
    let name = text::spaced(base, config.icon(kind));
    lemma_icon_is_put_on(config, base, kind);
    law_stripping(config, base);
    law_trimmed(base, waiting);
    law_trimmed(base, completed);
    if kind is Completed && waiting.is_suffix_of(name) {
        lemma_trimmed_copies(base, completed, waiting);
    }
    assert(plugin::stripped_once(config, name) == base);
}

/// Where stripping does not give the name back, that is because the completed icon gets in the
/// way of the waiting one: the condition under which an icon comes off leaves nothing out.
pub proof fn law_icon_comes_off_only_so(
    config: ConfigView,
    base: Seq<char>,
    kind: NotificationType,
)
    requires
        !plugin::has_icon(config, base),
        plugin::stripped(config, text::spaced(base, config.icon(kind))) == base,
    ensures
        comes_off(config, base, kind),
{
    let waiting = plugin::icon_suffix(config.waiting_icon);
    let completed = plugin::icon_suffix(config.completed_icon);
    let name = text::spaced(base, config.icon(kind));
    lemma_icon_is_put_on(config, base, kind);
    if kind is Completed && waiting.is_suffix_of(name) {
        let half = text::trimmed(name, waiting);
        let once = plugin::stripped_once(config, name);
        law_trimmed(name, waiting);
        text::lemma_trimmed_len(name, waiting);
        text::lemma_trimmed_len(half, completed);
        law_stripping(config, once);
        assert(base.len() <= once.len());
        if completed.is_suffix_of(half) {
            text::lemma_trimmed_len(half.take(half.len() - completed.len()), completed);
        }
        assert(once == half);
        assert(half == base);
        assert(name.skip(base.len() as int) =~= completed);
    }
}

/// Whether a text holds no space.
pub open spec fn is_one_word(s: Seq<char>) -> bool {
    forall|i: int| 0 <= i < s.len() ==> #[trigger] s[i] != ' '
}

/// Icons without a space always come off.
pub proof fn law_one_word_icons_come_off(
    config: ConfigView,
    base: Seq<char>,
    kind: NotificationType,
)
    requires
        is_one_word(config.waiting_icon),
        is_one_word(config.completed_icon),
    ensures
        comes_off(config, base, kind),
{
    let waiting = plugin::icon_suffix(config.waiting_icon);
    let completed = plugin::icon_suffix(config.completed_icon);
    let name = base + completed;
    if waiting.is_suffix_of(name) {
        let w = config.waiting_icon.len() as int;
        let c = config.completed_icon.len() as int;
        let tail = name.subrange(name.len() - waiting.len(), name.len() as int);
        assert(waiting =~= tail);
        if w > c {
            assert(tail[w - c] == name[base.len() as int]);
            assert(waiting[w - c] == config.waiting_icon[w - c - 1]);
        } else if w < c {
            assert(tail[0] == name[base.len() + c - w]);
            assert(completed[c - w] == config.completed_icon[c - w - 1]);
        } else {
            assert(waiting =~= completed);
            assert(completed.take(0) =~= seq![]);
            reveal_with_fuel(made_of, 2);
            assert(waiting.is_suffix_of(completed)) by {
                assert(waiting =~= completed.subrange(0, completed.len() as int));
            }
        }
    }
}

// Names of single tabs

/// A tab with another name.
pub open spec fn with_name(tab: TabView, name: Seq<char>) -> TabView {
    TabView { name, ..tab }
}

/// The name of a tab comes back: while the tab shows a notification its icon is asked for, once;
/// when the notification is gone the name apart from icons is asked for, once; and then the tab is
/// left alone. For a tab that had no icon to begin with, what comes back is its whole name.
pub proof fn law_name_is_restored(
    noticed: StateView,
    quiet: StateView,
    tab: TabView,
    kind: NotificationType,
    pending: Set<usize>,
)
    requires
        noticed.config == quiet.config,
        noticed.kind_at(tab.position) == Some(kind),
        quiet.kind_at(tab.position) is None,
        tab.name.len() > 0,
        comes_off(noticed.config, plugin::stripped(noticed.config, tab.name), kind),
    ensures
        ({
            let base = plugin::stripped(noticed.config, tab.name);
            let marked = with_name(tab, text::spaced(base, noticed.config.icon(kind)));
            let waiting_for = pending.remove(tab.position);
            &&& !plugin::has_icon(noticed.config, tab.name) ==> base == tab.name
            &&& noticed.named(tab, pending) == (
                waiting_for,
                if tab.name == marked.name {
                    Seq::<EffectView>::empty()
                } else {
                    seq![plugin::rename(tab.position, marked.name)]
                },
            )
            &&& noticed.named(marked, waiting_for) == (waiting_for, Seq::<EffectView>::empty())
            &&& quiet.named(marked, waiting_for) == (
                waiting_for.insert(tab.position),
                seq![plugin::rename(tab.position, base)],
            )
            &&& quiet.named(marked, waiting_for.insert(tab.position)) == (
                waiting_for.insert(tab.position),
                Seq::<EffectView>::empty(),
            )
            &&& quiet.named(with_name(tab, base), waiting_for.insert(tab.position)) == (
                waiting_for,
                Seq::<EffectView>::empty(),
            )
        }),
{
    let config = noticed.config;
    let base = plugin::stripped(config, tab.name);
    let waiting_for = pending.remove(tab.position);
    law_stripping(config, tab.name);
    law_icon_comes_off(config, base, kind);
    lemma_icon_is_put_on(config, base, kind);
    assert(waiting_for.remove(tab.position) =~= waiting_for);
    assert(waiting_for.insert(tab.position).remove(tab.position) =~= waiting_for);
}

/// A tab at a position where a strip is under way, and that shows no notification, is not renamed
/// again.
pub proof fn law_no_second_strip(state: StateView, tab: TabView, pending: Set<usize>)
    requires
        pending.contains(tab.position),
        state.kind_at(tab.position) is None,
    ensures
        state.named(tab, pending).1 == Seq::<EffectView>::empty(),
{
}

/// A tab without a name gets its number and the icon. From then on the number is its name apart
/// from icons, unless the number itself reads like an icon.
pub proof fn law_unnamed_tab(
    noticed: StateView,
    tab: TabView,
    kind: NotificationType,
    pending: Set<usize>,
)
    requires
        noticed.kind_at(tab.position) == Some(kind),
        tab.name.len() == 0,
    ensures
        noticed.named(tab, pending).1 == seq![
            plugin::rename(
                tab.position,
                text::spaced(host::numbered_name(tab.position), noticed.config.icon(kind)),
            ),
        ],
        ({
            let number = host::numbered_name(tab.position);
            let marked = with_name(tab, text::spaced(number, noticed.config.icon(kind)));
            !plugin::has_icon(noticed.config, number) && comes_off(noticed.config, number, kind)
                ==> plugin::base_name(noticed.config, marked) == number
        }),
{
    let number = host::numbered_name(tab.position);
    if !plugin::has_icon(noticed.config, number) && comes_off(noticed.config, number, kind) {
        law_icon_comes_off(noticed.config, number, kind);
    }
}

// Names of all tabs

/// Whether no two tabs stand at one position.
pub open spec fn distinct(tabs: Seq<TabView>) -> bool {
    forall|i: int, j: int|
        #![trigger tabs[i], tabs[j]]
        0 <= i < j < tabs.len() ==> tabs[i].position != tabs[j].position
}

/// What happens to a tab depends on the strips at its own position alone.
proof fn lemma_named_is_local(state: StateView, tab: TabView, p: Set<usize>, q: Set<usize>)
    requires
        p.contains(tab.position) == q.contains(tab.position),
    ensures
        state.named(tab, p).1 == state.named(tab, q).1,
        state.named(tab, p).0.contains(tab.position) == state.named(tab, q).0.contains(
            tab.position,
        ),
        forall|position: usize|
            position != tab.position ==> state.named(tab, p).0.contains(position) == p.contains(
                position,
            ),
{
}

/// Where tabs stand at different positions each is looked at on its own.
proof fn lemma_swept(state: StateView, n: int)
    requires
        distinct(state.tabs),
        0 <= n <= state.tabs.len(),
    ensures
        forall|i: int|
            #![trigger state.tabs[i]]
            0 <= i < n ==> state.swept(n).0.contains(state.tabs[i].position) == state.named(
                state.tabs[i],
                state.pending_strips,
            ).0.contains(state.tabs[i].position),
        forall|position: usize|
            (forall|i: int| 0 <= i < n ==> (#[trigger] state.tabs[i]).position != position) ==> (
            #[trigger] state.swept(n).0.contains(position)) == state.pending_strips.contains(
                position,
            ),
        forall|effect: EffectView| #[trigger]
            state.swept(n).1.contains(effect) <==> exists|i: int|
                0 <= i < n && #[trigger] state.named(
                    state.tabs[i],
                    state.pending_strips,
                ).1.contains(effect),
    decreases n,
{
    if n > 0 {
        lemma_swept(state, n - 1);
        let before = state.swept(n - 1);
        let tab = state.tabs[n - 1];
        let step = state.named(tab, before.0);
        assert(before.0.contains(tab.position) == state.pending_strips.contains(tab.position)) by {
            assert forall|i: int| 0 <= i < n - 1 implies (#[trigger] state.tabs[i]).position
                != tab.position by {
                assert(state.tabs[n - 1] == tab);
            }
        }
        lemma_named_is_local(state, tab, before.0, state.pending_strips);
        assert forall|i: int|
            #![trigger state.tabs[i]]
            0 <= i < n implies state.swept(n).0.contains(state.tabs[i].position) == state.named(
            state.tabs[i],
            state.pending_strips,
        ).0.contains(state.tabs[i].position) by {
            if i < n - 1 {
                assert(state.tabs[i].position != state.tabs[n - 1].position);
            }
        }
        assert forall|effect: EffectView| #[trigger]
            state.swept(n).1.contains(effect) <==> exists|i: int|
                0 <= i < n && #[trigger] state.named(
                    state.tabs[i],
                    state.pending_strips,
                ).1.contains(effect) by {
            lemma_concat_contains(before.1, step.1, effect);
            if before.1.contains(effect) {
                let i = choose|i: int|
                    0 <= i < n - 1 && #[trigger] state.named(
                        state.tabs[i],
                        state.pending_strips,
                    ).1.contains(effect);
                assert(state.named(state.tabs[i], state.pending_strips).1.contains(effect));
            }
            if step.1.contains(effect) {
                assert(state.named(state.tabs[n - 1], state.pending_strips).1.contains(effect));
            }
        }
    }
}

pub proof fn lemma_concat_contains(a: Seq<EffectView>, b: Seq<EffectView>, effect: EffectView)
    ensures
        (a + b).contains(effect) <==> a.contains(effect) || b.contains(effect),
{
    if a.contains(effect) {
        let i = choose|i: int| 0 <= i < a.len() && a[i] == effect;
        assert((a + b)[i] == effect);
    }
    if b.contains(effect) {
        let i = choose|i: int| 0 <= i < b.len() && b[i] == effect;
        assert((a + b)[a.len() + i] == effect);
    }
    if (a + b).contains(effect) {
        let i = choose|i: int| 0 <= i < (a + b).len() && (a + b)[i] == effect;
        if i < a.len() {
            assert(a[i] == effect);
        } else {
            assert(b[i - a.len()] == effect);
        }
    }
}

pub proof fn lemma_swept_keeps(state: StateView, m: int, n: int, effect: EffectView)
    requires
        0 <= m <= n <= state.tabs.len(),
        state.swept(m).1.contains(effect),
    ensures
        state.swept(n).1.contains(effect),
    decreases n,
{
    if m < n {
        lemma_swept_keeps(state, m, n - 1, effect);
        let before = state.swept(n - 1);
        lemma_concat_contains(before.1, state.named(state.tabs[n - 1], before.0).1, effect);
    }
}

/// Every tab that shows a notification carries its icon, or is asked to.
pub proof fn law_icon_is_present(state: StateView, i: int)
    requires
        state.config.enabled,
        !state.updating_tabs,
        0 <= i < state.tabs.len(),
        state.kind_at(state.tabs[i].position) is Some,
    ensures
        ({
            let tab = state.tabs[i];
            let desired = text::spaced(
                plugin::base_name(state.config, tab),
                state.config.icon(state.kind_at(tab.position)->0),
            );
            tab.name == desired || state.renames().contains(plugin::rename(tab.position, desired))
        }),
{
    let tab = state.tabs[i];
    let desired = text::spaced(
        plugin::base_name(state.config, tab),
        state.config.icon(state.kind_at(tab.position)->0),
    );
    if tab.name != desired {
        let effect = plugin::rename(tab.position, desired);
        let before = state.swept(i);
        let step = state.named(tab, before.0);
        assert(step.1[0] == effect);
        lemma_concat_contains(before.1, step.1, effect);
        lemma_swept_keeps(state, i + 1, state.tabs.len() as int, effect);
    }
}

/// A rename is asked for exactly where the one tab, looked at on its own, gives a reason.
pub proof fn law_each_tab_on_its_own(state: StateView, effect: EffectView)
    requires
        distinct(state.tabs),
        state.config.enabled,
        !state.updating_tabs,
    ensures
        state.renames().contains(effect) <==> exists|i: int|
            0 <= i < state.tabs.len() && #[trigger] state.named(
                state.tabs[i],
                state.pending_strips,
            ).1.contains(effect),
{
    lemma_swept(state, state.tabs.len() as int);
}

/// The order of the tabs does not count: the same tabs in another order are renamed in the same
/// way, and the same strips are under way afterwards.
pub proof fn law_tab_order_does_not_count(a: StateView, b: StateView)
    requires
        distinct(a.tabs),
        distinct(b.tabs),
        a == (StateView { tabs: a.tabs, ..b }),
        forall|tab: TabView| a.tabs.contains(tab) <==> #[trigger] b.tabs.contains(tab),
    ensures
        forall|effect: EffectView| #[trigger]
            a.renames().contains(effect) <==> b.renames().contains(effect),
        a.names_updated() == (StateView { tabs: a.tabs, ..b.names_updated() }),
{
    if a.config.enabled && !a.updating_tabs {
        assert forall|effect: EffectView| #[trigger]
            a.renames().contains(effect) <==> b.renames().contains(effect) by {
            law_each_tab_on_its_own(a, effect);
            law_each_tab_on_its_own(b, effect);
            if a.renames().contains(effect) {
                lemma_same_tabs(a, b, effect);
            }
            if b.renames().contains(effect) {
                lemma_same_tabs(b, a, effect);
            }
        }
        lemma_swept(a, a.tabs.len() as int);
        lemma_swept(b, b.tabs.len() as int);
        let p = a.names_updated().pending_strips;
        let q = b.names_updated().pending_strips;
        if a.tabs.len() == 0 {
            if b.tabs.len() > 0 {
                assert(b.tabs.contains(b.tabs[0]));
                assert(a.tabs.contains(b.tabs[0]));
            }
        } else {
            assert(a.tabs.contains(a.tabs[0]));
            assert(b.tabs.contains(a.tabs[0]));
        }
        assert forall|position: usize| p.contains(position) == q.contains(position) by {
            if host::is_position(a.tabs, position) {
                let i = choose|i: int|
                    0 <= i < a.tabs.len() && (#[trigger] a.tabs[i]).position == position;
                let tab = a.tabs[i];
                assert(a.tabs.contains(tab));
                assert(b.tabs.contains(tab));
                let j = choose|j: int| 0 <= j < b.tabs.len() && b.tabs[j] == tab;
                assert(b.tabs[j] == tab);
                assert(a.named(tab, a.pending_strips) == b.named(tab, b.pending_strips));
            } else if host::is_position(b.tabs, position) {
                let j = choose|j: int|
                    0 <= j < b.tabs.len() && (#[trigger] b.tabs[j]).position == position;
                assert(b.tabs.contains(b.tabs[j]));
                assert(a.tabs.contains(b.tabs[j]));
                let i = choose|i: int| 0 <= i < a.tabs.len() && a.tabs[i] == b.tabs[j];
                assert(a.tabs[i].position == position);
            }
        }
        assert(p =~= q);
    }
}

proof fn lemma_same_tabs(a: StateView, b: StateView, effect: EffectView)
    requires
        distinct(a.tabs),
        distinct(b.tabs),
        a == (StateView { tabs: a.tabs, ..b }),
        a.config.enabled,
        !a.updating_tabs,
        forall|tab: TabView| #[trigger] a.tabs.contains(tab) ==> b.tabs.contains(tab),
        a.renames().contains(effect),
    ensures
        b.renames().contains(effect),
{
    law_each_tab_on_its_own(a, effect);
    law_each_tab_on_its_own(b, effect);
    let i = choose|i: int|
        0 <= i < a.tabs.len() && #[trigger] a.named(a.tabs[i], a.pending_strips).1.contains(effect);
    assert(a.tabs.contains(a.tabs[i]));
    let j = choose|j: int| 0 <= j < b.tabs.len() && b.tabs[j] == a.tabs[i];
    assert(b.named(b.tabs[j], b.pending_strips) == a.named(a.tabs[i], a.pending_strips));
}

/// Once the names were brought up to date no tab is stale: every icon without a notification has
/// a strip under way.
pub proof fn law_nothing_stale_after_update(state: StateView)
    requires
        distinct(state.tabs),
        state.config.enabled,
        !state.updating_tabs,
    ensures
        !state.names_updated().any_stale(),
{
    let next = state.names_updated();
    lemma_swept(state, state.tabs.len() as int);
    assert forall|i: int| 0 <= i < next.tabs.len() implies !next.is_stale(#[trigger] next.tabs[i]) by {
        let tab = next.tabs[i];
        assert(state.tabs[i] == tab);
        assert(next.kind_at(tab.position) == state.kind_at(tab.position));
        law_stripping(state.config, tab.name);
        assert(host::is_position(state.tabs, tab.position));
    }
}

/// Bringing the names up to date twice strips nothing twice: the second time, renames are asked
/// for of tabs with a notification only.
pub proof fn law_second_update_strips_nothing(state: StateView, effect: EffectView)
    requires
        distinct(state.tabs),
        state.config.enabled,
        !state.updating_tabs,
        state.names_updated().renames().contains(effect),
    ensures
        exists|i: int|
            0 <= i < state.tabs.len() && state.kind_at((#[trigger] state.tabs[i]).position) is Some
                && effect is RenameTab && effect->tab == (state.tabs[i].position + 1) as u32,
{
    let next = state.names_updated();
    law_nothing_stale_after_update(state);
    law_each_tab_on_its_own(next, effect);
    let i = choose|i: int|
        0 <= i < next.tabs.len() && #[trigger] next.named(
            next.tabs[i],
            next.pending_strips,
        ).1.contains(effect);
    let tab = next.tabs[i];
    assert(state.tabs[i] == tab);
    assert(!next.is_stale(next.tabs[i]));
    assert(next.kind_at(tab.position) == state.kind_at(tab.position));
    let asked = next.named(tab, next.pending_strips).1;
    let k = choose|k: int| 0 <= k < asked.len() && asked[k] == effect;
    assert(asked[k] == effect);
}

/// Taking in a change twice asks for nothing and changes nothing the second time.
proof fn lemma_reacting_twice(state: StateView)
    requires
        distinct(state.tabs),
    ensures
        state.reacted().reacted() == state.reacted(),
        state.reacted().reaction() == Seq::<EffectView>::empty(),
{
    let next = state.reacted();
    let settled = state.settled();
    law_focus_clears(state, 0);
    assert(next.focused() =~= state.focused()) by {
        assert forall|id: u32| next.focused().contains(id) == state.focused().contains(id) by {
            if next.focused().contains(id) {
                let i = choose|i: int|
                    0 <= i < next.tabs.len() && next.focus_of(#[trigger] next.tabs[i]) == Some(id);
                assert(state.focus_of(state.tabs[i]) == Some(id));
            }
            if state.focused().contains(id) {
                let i = choose|i: int|
                    0 <= i < state.tabs.len() && state.focus_of(#[trigger] state.tabs[i]) == Some(
                        id,
                    );
                assert(next.focus_of(next.tabs[i]) == Some(id));
            }
        }
    }
    assert(next.focus_cleared().notification_state =~= next.notification_state);
    assert(next.settled().notification_state =~= next.notification_state);
    assert(next.settled() == next);
    if state.needs_update() && settled.config.enabled && !settled.updating_tabs {
        law_nothing_stale_after_update(settled);
    }
}

/// Two equal tab updates in a row: the second asks for nothing and changes nothing.
pub proof fn law_repeated_tab_update_does_nothing(state: StateView, tabs: Seq<TabView>)
    requires
        distinct(tabs),
    ensures
        ({
            let event = EventView::TabUpdate(tabs);
            let next = state.after_event(event).0;
            &&& next.after_event(event).0 == next
            &&& next.after_event(event).1.effects == Seq::<EffectView>::empty()
        }),
{
    let taken = StateView { tabs, ..state };
    lemma_reacting_twice(taken);
    assert(StateView { tabs, ..taken.reacted() } == taken.reacted());
}

/// Two equal pane updates in a row: the second asks for nothing and changes nothing.
pub proof fn law_repeated_pane_update_does_nothing(
    state: StateView,
    panes: Map<usize, Seq<PaneInfo>>,
)
    requires
        distinct(state.tabs),
    ensures
        ({
            let event = EventView::PaneUpdate(panes);
            let next = state.after_event(event).0;
            &&& next.after_event(event).0 == next
            &&& next.after_event(event).1.effects == Seq::<EffectView>::empty()
        }),
{
    let taken = StateView { panes, ..state };
    lemma_reacting_twice(taken);
    assert(StateView { panes, ..taken.reacted() } == taken.reacted());
}

/// The tab after the host has done what one effect asks for.
pub open spec fn tab_after(tab: TabView, effect: EffectView) -> TabView {
    match effect {
        EffectView::RenameTab { tab: number, name } => if number == (tab.position + 1) as u32 {
            with_name(tab, name)
        } else {
            tab
        },
        _ => tab,
    }
}

/// The tabs after the host has done what the effects ask for, one after the other.
pub open spec fn tabs_after(tabs: Seq<TabView>, effects: Seq<EffectView>) -> Seq<TabView>
    decreases effects.len(),
{
    if effects.len() == 0 {
        tabs
    } else {
        tabs_after(tabs, effects.drop_last()).map_values(
            |tab: TabView| tab_after(tab, effects.last()),
        )
    }
}

/// The tab after the host has done what is asked for it.
pub open spec fn tab_as_named(state: StateView, tab: TabView) -> TabView {
    let asked = state.named(tab, state.pending_strips).1;
    if asked.len() == 0 {
        tab
    } else {
        tab_after(tab, asked[0])
    }
}

/// Doing the renames gives each tab the name that is asked for it, and touches no other.
proof fn lemma_tabs_after(state: StateView, n: int)
    requires
        distinct(state.tabs),
        forall|i: int| 0 <= i < state.tabs.len() ==> (#[trigger] state.tabs[i]).position < u32::MAX,
        0 <= n <= state.tabs.len(),
    ensures
        tabs_after(state.tabs, state.swept(n).1).len() == state.tabs.len(),
        forall|i: int|
            #![trigger state.tabs[i]]
            0 <= i < state.tabs.len() ==> tabs_after(state.tabs, state.swept(n).1)[i] == if i < n {
                tab_as_named(state, state.tabs[i])
            } else {
                state.tabs[i]
            },
    decreases n,
{
    if n > 0 {
        lemma_tabs_after(state, n - 1);
        lemma_swept(state, n - 1);
        let before = state.swept(n - 1);
        let tab = state.tabs[n - 1];
        let step = state.named(tab, before.0);
        assert(before.0.contains(tab.position) == state.pending_strips.contains(tab.position)) by {
            assert forall|i: int| 0 <= i < n - 1 implies (#[trigger] state.tabs[i]).position
                != tab.position by {
                assert(state.tabs[n - 1] == tab);
            }
        }
        lemma_named_is_local(state, tab, before.0, state.pending_strips);
        if step.1.len() == 0 {
            assert(before.1 + step.1 =~= before.1);
        } else {
            assert(step.1.len() == 1);
            let effects = before.1 + step.1;
            assert(effects.drop_last() =~= before.1);
            assert(effects.last() == step.1[0]);
            assert forall|i: int|
                #![trigger state.tabs[i]]
                0 <= i < state.tabs.len() && i != n - 1 implies tabs_after(state.tabs, effects)[i]
                == tabs_after(state.tabs, before.1)[i] by {
                assert(state.tabs[i].position != state.tabs[n - 1].position);
            }
        }
    }
}

/// Whether the name of a tab that shows a notification of this kind settles: it is already the
/// one to be asked for, or the icon comes off the name that it will be put behind.
pub open spec fn name_settles(config: ConfigView, tab: TabView, kind: NotificationType) -> bool {
    let base = plugin::base_name(config, tab);
    ||| tab.name == text::spaced(base, config.icon(kind))
    ||| !plugin::has_icon(config, base) && comes_off(config, base, kind)
}

/// Names settle: once the host has done the renames that an update asks for, a second update asks
/// for nothing. No strip is under way then at a tab, unless one was before the first update and the
/// tab still carried its icon.
pub proof fn law_names_settle(state: StateView)
    requires
        state.config.enabled,
        !state.updating_tabs,
        distinct(state.tabs),
        forall|i: int| 0 <= i < state.tabs.len() ==> (#[trigger] state.tabs[i]).position < u32::MAX,
        forall|i: int|
            0 <= i < state.tabs.len() && state.kind_at((#[trigger] state.tabs[i]).position) is Some
                ==> name_settles(
                state.config,
                state.tabs[i],
                state.kind_at(state.tabs[i].position)->0,
            ),
    ensures
        ({
            let next = StateView {
                tabs: tabs_after(state.tabs, state.renames()),
                ..state.names_updated()
            };
            &&& next.renames() == Seq::<EffectView>::empty()
            &&& forall|i: int|
                0 <= i < state.tabs.len() && next.names_updated().pending_strips.contains(
                    (#[trigger] state.tabs[i]).position,
                ) ==> state.pending_strips.contains(state.tabs[i].position) && plugin::has_icon(
                    state.config,
                    state.tabs[i].name,
                ) && state.kind_at(state.tabs[i].position) is None
            &&& state.tabs.len() > 0 ==> next.names_updated().pending_strips.subset_of(
                host::positions_of(state.tabs),
            )
        }),
{
    let n = state.tabs.len() as int;
    let next = StateView {
        tabs: tabs_after(state.tabs, state.renames()),
        ..state.names_updated()
    };
    lemma_tabs_after(state, n);
    lemma_swept(state, n);
    assert(next.tabs.len() == n);
    assert forall|i: int| 0 <= i < n implies (#[trigger] next.tabs[i]).position
        == state.tabs[i].position && next.tabs[i] == tab_as_named(state, state.tabs[i])
        && next.kind_at(next.tabs[i].position) == state.kind_at(state.tabs[i].position)
        && next.pending_strips.contains(next.tabs[i].position) == state.named(
        state.tabs[i],
        state.pending_strips,
    ).0.contains(state.tabs[i].position) by {
        assert(state.tabs[i].position < u32::MAX);
        assert(host::is_position(state.tabs, state.tabs[i].position));
    }
    assert(distinct(next.tabs));
    assert forall|i: int| 0 <= i < n implies stays_settled(
        state,
        next,
        #[trigger] state.tabs[i],
        next.tabs[i],
    ) by {
        lemma_name_settles(state, next, state.tabs[i], next.tabs[i]);
    }
    lemma_swept(next, n);
    assert(next.renames() =~= Seq::<EffectView>::empty()) by {
        if next.renames().len() > 0 {
            let effect = next.renames()[0];
            assert(next.renames().contains(effect));
            let i = choose|i: int|
                0 <= i < n && #[trigger] next.named(
                    next.tabs[i],
                    next.pending_strips,
                ).1.contains(effect);
            assert(stays_settled(state, next, state.tabs[i], next.tabs[i]));
        }
    }
    assert forall|i: int|
        0 <= i < n && next.names_updated().pending_strips.contains(
            (#[trigger] state.tabs[i]).position,
        ) implies state.pending_strips.contains(state.tabs[i].position) && plugin::has_icon(
        state.config,
        state.tabs[i].name,
    ) && state.kind_at(state.tabs[i].position) is None by {
        assert(next.tabs[i].position == state.tabs[i].position);
        assert(stays_settled(state, next, state.tabs[i], next.tabs[i]));
    }
    if n > 0 {
        assert forall|position: usize| next.names_updated().pending_strips.contains(
            position,
        ) implies host::positions_of(state.tabs).contains(position) by {
            let i = choose|i: int|
                0 <= i < next.tabs.len() && (#[trigger] next.tabs[i]).position == position;
            assert(state.tabs[i].position == position);
        }
    }
}

/// Whether the second update leaves a tab alone, with a strip under way only where there was one.
spec fn stays_settled(state: StateView, next: StateView, before: TabView, after: TabView) -> bool {
    let second = next.named(after, next.pending_strips);
    &&& second.1.len() == 0
    &&& second.0.contains(before.position) ==> state.pending_strips.contains(before.position)
        && plugin::has_icon(state.config, before.name) && state.kind_at(before.position) is None
}

proof fn lemma_name_settles(state: StateView, next: StateView, before: TabView, after: TabView)
    requires
        next.config == state.config,
        after == tab_as_named(state, before),
        before.position < u32::MAX,
        next.kind_at(before.position) == state.kind_at(before.position),
        next.pending_strips.contains(before.position) == state.named(
            before,
            state.pending_strips,
        ).0.contains(before.position),
        state.kind_at(before.position) is Some ==> name_settles(
            state.config,
            before,
            state.kind_at(before.position)->0,
        ),
    ensures
        stays_settled(state, next, before, after),
{
    let config = state.config;
    let base = plugin::base_name(config, before);
    law_stripping(config, before.name);
    match state.kind_at(before.position) {
        Some(kind) => {
            if before.name != text::spaced(base, config.icon(kind)) {
                law_icon_comes_off(config, base, kind);
            }
        },
        None => {},
    }
}

/// Strips are under way at positions of tabs only, as long as there are tabs.
pub proof fn law_pending_strips_have_tabs(state: StateView, position: usize)
    requires
        state.config.enabled,
        !state.updating_tabs,
        state.tabs.len() > 0,
        state.names_updated().pending_strips.contains(position),
    ensures
        host::is_position(state.tabs, position),
{
}

/// On startup every stale icon goes: the answer to the permissions asks for the name of each stale
/// tab without icons.
pub proof fn law_startup_strips_stale_icons(state: StateView, granted: bool, i: int)
    requires
        state.config.enabled,
        !state.updating_tabs,
        distinct(state.tabs),
        0 <= i < state.tabs.len(),
        state.is_stale(state.tabs[i]),
    ensures
        ({
            let tab = state.tabs[i];
            let name = plugin::stripped(state.config, tab.name);
            &&& !plugin::has_icon(state.config, name)
            &&& state.after_event(
                EventView::PermissionRequestResult(granted),
            ).1.effects.contains(plugin::rename(tab.position, name))
        }),
{
    let tab = state.tabs[i];
    let next = StateView { permissions_granted: granted, ..state };
    let effect = plugin::rename(tab.position, plugin::stripped(state.config, tab.name));
    law_stripping(state.config, tab.name);
    assert(next.named(next.tabs[i], next.pending_strips).1[0] == effect);
    assert(next.named(next.tabs[i], next.pending_strips).1.contains(effect));
    law_each_tab_on_its_own(next, effect);
    lemma_concat_contains(seq![EffectView::SetSelectable(false)], next.renames(), effect);
}

// Notifications

/// After clearing, no focused pane has notifications, and every other pane has those it had.
/// Clearing again changes nothing.
pub proof fn law_focus_clears(state: StateView, pane: u32)
    ensures
        state.focused().contains(pane) ==> !state.focus_cleared().notification_state.contains_key(
            pane,
        ),
        !state.focused().contains(pane) ==> state.focus_cleared().notification_state.get(pane)
            == state.notification_state.get(pane),
        state.focus_cleared().focus_cleared() == state.focus_cleared(),
{
    let next = state.focus_cleared();
    assert(next.focused() =~= state.focused()) by {
        assert forall|id: u32| next.focused().contains(id) == state.focused().contains(id) by {
            assert forall|i: int| 0 <= i < state.tabs.len() implies next.focus_of(
                #[trigger] next.tabs[i],
            ) == state.focus_of(state.tabs[i]) by {}
            if next.focused().contains(id) {
                let i = choose|i: int|
                    0 <= i < next.tabs.len() && next.focus_of(#[trigger] next.tabs[i]) == Some(id);
                assert(state.focus_of(state.tabs[i]) == Some(id));
            }
            if state.focused().contains(id) {
                let i = choose|i: int|
                    0 <= i < state.tabs.len() && state.focus_of(#[trigger] state.tabs[i]) == Some(
                        id,
                    );
                assert(next.focus_of(next.tabs[i]) == Some(id));
            }
        }
    }
    assert(next.focus_cleared().notification_state =~= next.notification_state);
}

/// Every active tab counts, not just the first one: the focused pane of each is cleared.
pub proof fn law_every_client_counts(state: StateView, i: int, pane: u32)
    requires
        0 <= i < state.tabs.len(),
        state.tabs[i].active,
        state.panes.contains_key(state.tabs[i].position),
        panes::focused_id(
            state.panes[state.tabs[i].position],
            state.tabs[i].are_floating_panes_visible,
            false,
        ) == Some(pane),
    ensures
        !state.focus_cleared().notification_state.contains_key(pane),
{
    assert(state.focus_of(state.tabs[i]) == Some(pane));
    assert(state.focused().contains(pane));
}

/// After cleaning, every notification belongs to a terminal that exists, as far as panes are
/// known; those of terminals that exist are kept. Cleaning again changes nothing.
pub proof fn law_stale_notifications_go(state: StateView, pane: u32)
    ensures
        !state.panes.is_empty() && state.stale_cleaned().notification_state.contains_key(pane)
            ==> panes::is_live(state.panes, false, pane),
        panes::is_live(state.panes, false, pane) ==> state.stale_cleaned().notification_state.get(
            pane,
        ) == state.notification_state.get(pane),
        state.stale_cleaned().stale_cleaned() == state.stale_cleaned(),
{
    let next = state.stale_cleaned();
    assert(next.stale_cleaned().notification_state =~= next.notification_state);
}

/// The latest notification of a pane replaces those before; other panes keep theirs.
pub proof fn law_latest_notification_wins(
    state: StateView,
    pane: u32,
    other: u32,
    before: NotificationType,
    latest: NotificationType,
)
    ensures
        state.notified(pane, before).notified(pane, latest) == state.notified(pane, latest),
        state.notified(pane, latest).notification_state.contains_key(pane),
        forall|kind: NotificationType| #[trigger]
            state.notified(pane, latest).notification_state[pane].holds(kind) == (kind == latest),
        other != pane ==> state.notified(pane, latest).notification_state.get(other)
            == state.notification_state.get(other),
{
    assert(state.notified(pane, before).notified(pane, latest).notification_state
        =~= state.notified(pane, latest).notification_state);
}

/// A tab shows a notification when one of its terminals has one, and Waiting when one of them has
/// that, whatever the others have.
pub proof fn law_waiting_comes_first(state: StateView, position: usize, i: int)
    requires
        state.panes.contains_key(position),
        0 <= i < state.panes[position].len(),
        !state.panes[position][i].is_plugin,
        state.notification_state.contains_key(state.panes[position][i].id),
    ensures
        state.notification_state[state.panes[position][i].id].holds(NotificationType::Waiting)
            ==> state.kind_at(position) == Some(NotificationType::Waiting),
        state.notification_state[state.panes[position][i].id].holds(NotificationType::Completed)
            ==> state.kind_at(position) is Some,
{
    let pane = state.panes[position][i];
    if state.notification_state[pane.id].holds(NotificationType::Waiting) {
        assert(panes::pane_holds(
            state.panes[position][i],
            state.notification_state,
            false,
            NotificationType::Waiting,
        ));
    }
    if state.notification_state[pane.id].holds(NotificationType::Completed) {
        assert(panes::pane_holds(
            state.panes[position][i],
            state.notification_state,
            false,
            NotificationType::Completed,
        ));
    }
}

/// A notification marks the tab of its pane at once: unless the tab already has that name, the
/// answer to the message asks for the tab's name with the icon.
pub proof fn law_notification_marks_tab(
    state: StateView,
    pipe: Seq<char>,
    kind: NotificationType,
    i: int,
    k: int,
)
    requires
        state.config.enabled,
        !state.updating_tabs,
        0 <= i < state.tabs.len(),
        state.panes.contains_key(state.tabs[i].position),
        0 <= k < state.panes[state.tabs[i].position].len(),
        !state.panes[state.tabs[i].position][k].is_plugin,
    ensures
        ({
            let tab = state.tabs[i];
            let pane = state.panes[tab.position][k].id;
            let shown = state.notified(pane, kind).kind_at(tab.position);
            let desired = text::spaced(
                plugin::base_name(state.config, tab),
                state.config.icon(shown->0),
            );
            &&& shown is Some
            &&& kind is Waiting ==> shown->0 is Waiting
            &&& tab.name != desired ==> state.after_message(
                pipe,
                MessageView::Notify { pane, kind },
            ).1.effects.contains(plugin::rename(tab.position, desired))
        }),
{
    let tab = state.tabs[i];
    let pane = state.panes[tab.position][k].id;
    let next = state.notified(pane, kind);
    law_latest_notification_wins(state, pane, pane, kind, kind);
    assert(next.notification_state[pane].holds(kind));
    law_waiting_comes_first(next, tab.position, k);
    let shown = next.kind_at(tab.position)->0;
    let desired = text::spaced(plugin::base_name(state.config, tab), state.config.icon(shown));
    if tab.name != desired {
        law_icon_is_present(next, i);
        lemma_concat_contains(
            seq![EffectView::UnblockPipe { pipe }],
            next.renames(),
            plugin::rename(tab.position, desired),
        );
    }
}

/// Focusing the panes that have notifications restores the name of their tab: the answer to the
/// change asks for the name apart from icons, which is the one that the icon was put behind.
pub proof fn law_focus_restores_name(
    state: StateView,
    i: int,
    base: Seq<char>,
    kind: NotificationType,
)
    requires
        state.config.enabled,
        !state.updating_tabs,
        distinct(state.tabs),
        0 <= i < state.tabs.len(),
        plugin::has_icon(state.config, state.tabs[i].name),
        !state.pending_strips.contains(state.tabs[i].position),
        state.panes.contains_key(state.tabs[i].position) ==> forall|k: int|
            0 <= k < state.panes[state.tabs[i].position].len() && !(
            #[trigger] state.panes[state.tabs[i].position][k]).is_plugin
                && state.notification_state.contains_key(state.panes[state.tabs[i].position][k].id)
                ==> state.focused().contains(state.panes[state.tabs[i].position][k].id),
    ensures
        state.reaction().contains(
            plugin::rename(
                state.tabs[i].position,
                plugin::stripped(state.config, state.tabs[i].name),
            ),
        ),
        state.tabs[i].name == text::spaced(base, state.config.icon(kind)) && !plugin::has_icon(
            state.config,
            base,
        ) && comes_off(state.config, base, kind) ==> plugin::stripped(
            state.config,
            state.tabs[i].name,
        ) == base,
{
    let tab = state.tabs[i];
    let config = state.config;
    let next = state.settled();
    law_stripping(config, tab.name);
    if tab.name == text::spaced(base, config.icon(kind)) && !plugin::has_icon(config, base)
        && comes_off(config, base, kind) {
        law_icon_comes_off(config, base, kind);
    }
    assert(next.kind_at(tab.position) is None) by {
        assert forall|any: NotificationType| !panes::tab_holds(
            next.panes,
            next.notification_state,
            tab.position,
            false,
            any,
        ) by {
            if panes::tab_holds(next.panes, next.notification_state, tab.position, false, any) {
                let k = choose|k: int|
                    0 <= k < next.panes[tab.position].len() && panes::pane_holds(
                        #[trigger] next.panes[tab.position][k],
                        next.notification_state,
                        false,
                        any,
                    );
                let pane = state.panes[state.tabs[i].position][k];
                assert(state.focused().contains(pane.id));
            }
        }
    }
    assert(next.is_stale(next.tabs[i]));
    assert(state.needs_update());
    let effect = plugin::rename(tab.position, plugin::stripped(config, tab.name));
    assert(next.named(next.tabs[i], next.pending_strips).1[0] == effect);
    assert(next.named(next.tabs[i], next.pending_strips).1.contains(effect));
    law_each_tab_on_its_own(next, effect);
}

// Answers

proof fn lemma_renames_only(state: StateView, n: int)
    ensures
        forall|k: int| 0 <= k < state.swept(n).1.len() ==> (#[trigger] state.swept(n).1[k]) is RenameTab,
    decreases n,
{
    if n > 0 {
        lemma_renames_only(state, n - 1);
    }
}

/// Whoever sends a message to the plugin is unblocked, once, whether the message is understood or
/// not; where it is, before any tab is renamed. A message to others changes nothing and is not
/// answered.
pub proof fn law_sender_is_unblocked(state: StateView, pipe: Seq<char>, meaning: MessageView)
    ensures
        ({
            let next = state.after_message(pipe, meaning);
            let effects = next.1.effects;
            let at: int = if meaning is Rejected { 1 } else { 0 };
            if meaning is Ignored {
                next.0 == state && effects.len() == 0
            } else {
                &&& at < effects.len()
                &&& effects[at] == EffectView::UnblockPipe { pipe }
                &&& forall|k: int|
                    0 <= k < effects.len() && k != at ==> !((#[trigger] effects[k]) is UnblockPipe)
            }
        }),
{
    match meaning {
        MessageView::Notify { pane, kind } => {
            let next = state.notified(pane, kind);
            lemma_renames_only(next, next.tabs.len() as int);
            let effects = state.after_message(pipe, meaning).1.effects;
            assert forall|k: int| 0 <= k < effects.len() && k != 0 implies !((
            #[trigger] effects[k]) is UnblockPipe) by {
                assert(effects[k] == next.renames()[k - 1]);
            }
        },
        _ => {},
    }
}

/// A refused message changes nothing.
pub proof fn law_refused_message_changes_nothing(
    state: StateView,
    pipe: Seq<char>,
    error: MessageErrorView,
)
    ensures
        state.after_message(pipe, MessageView::Rejected(error)).0 == state,
{
}

/// While the plugin is disabled no event and no message renames a tab.
pub proof fn law_disabled_renames_nothing(
    state: StateView,
    event: EventView,
    pipe: Seq<char>,
    meaning: MessageView,
    k: int,
)
    requires
        !state.config.enabled,
    ensures
        0 <= k < state.after_event(event).1.effects.len() ==> !(state.after_event(
            event,
        ).1.effects[k] is RenameTab),
        0 <= k < state.after_message(pipe, meaning).1.effects.len() ==> !(state.after_message(
            pipe,
            meaning,
        ).1.effects[k] is RenameTab),
{
}

/// The mark that names are being updated is never left behind.
pub proof fn law_updating_mark_is_not_left(
    state: StateView,
    event: EventView,
    pipe: Seq<char>,
    meaning: MessageView,
)
    requires
        !state.updating_tabs,
    ensures
        !state.after_event(event).0.updating_tabs,
        !state.after_message(pipe, meaning).0.updating_tabs,
{
}

/// What the plugin does to a name is no rename from elsewhere: a tab whose name gained or lost
/// the plugin's icon is not reported.
pub proof fn law_own_renames_are_not_external(
    state: StateView,
    tab: TabView,
    i: int,
    base: Seq<char>,
    kind: NotificationType,
)
    requires
        plugin::tab_at(state.tabs, tab.position) == Some(i),
        !plugin::has_icon(state.config, base),
        comes_off(state.config, base, kind),
        tab.name == base || tab.name == text::spaced(base, state.config.icon(kind)),
        state.tabs[i].name == base || state.tabs[i].name == text::spaced(
            base,
            state.config.icon(kind),
        ),
    ensures
        state.external_rename(tab) == Seq::<plugin::ExternalRenameView>::empty(),
{
    law_icon_comes_off(state.config, base, kind);
    law_stripping(state.config, base);
}

} // verus!
