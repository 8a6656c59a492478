//! The systemd timer that runs the sync: reading its state from `systemctl`
//! output and writing its unit files.

use vstd::prelude::*;
use vstd::string::*;
use crate::helpers::{CommandResult, TimerConfig};
use crate::text::{
    chars_of, eq_str, lines, push_all, push_str, split_lines, split_ws, starts_with,
    starts_with_str, strip_prefix, strip_prefix_str, string_of, trim, trim_chars, vviews, words,
};

verus! {

/// The timer properties read so far.
pub struct TimerProps {
    pub calendar: Seq<char>,
    pub delay: Seq<char>,
    pub last: Option<Seq<char>>,
}

/// One line of `systemctl show --property=TimersCalendar,RandomizedDelayUSec,LastTriggerUSec`:
/// the calendar is the last word of its value (or "daily"), the delay the
/// value, and the last trigger the value when it is not empty.
pub open spec fn props_step(p: TimerProps, l: Seq<char>) -> TimerProps {
    match strip_prefix(l, "TimersCalendar="@) {
        Some(v) => {
            let w = words(v);
            TimerProps { calendar: if w.len() > 0 { w.last() } else { "daily"@ }, ..p }
        },
        None => match strip_prefix(l, "RandomizedDelayUSec="@) {
            Some(v) => TimerProps { delay: v, ..p },
            None => match strip_prefix(l, "LastTriggerUSec="@) {
                Some(v) => if v.len() > 0 { TimerProps { last: Some(v), ..p } } else { p },
                None => p,
            },
        },
    }
}

pub open spec fn props_of(ls: Seq<Seq<char>>) -> TimerProps
    decreases ls.len(),
{
    if ls.len() == 0 {
        TimerProps { calendar: "daily"@, delay: "1h"@, last: None }
    } else {
        props_step(props_of(ls.drop_last()), ls.last())
    }
}

/// The value after `prefix` on the first line that starts with it.
pub open spec fn first_value(ls: Seq<Seq<char>>, prefix: Seq<char>) -> Option<Seq<char>>
    decreases ls.len(),
{
    if ls.len() == 0 {
        None
    } else if starts_with(ls[0], prefix) {
        Some(ls[0].skip(prefix.len() as int))
    } else {
        first_value(ls.drop_first(), prefix)
    }
}

pub open spec fn opt_eq(a: Option<String>, b: Option<Seq<char>>) -> bool {
    match a {
        Some(s) => b == Some(s@),
        None => b is None,
    }
}

fn first_value_exec(ls: &Vec<Vec<char>>, prefix: &str) -> (r: Option<String>)
    ensures
        opt_eq(r, first_value(vviews(ls@), prefix@)),
{
    let mut i: usize = 0;
    assert(vviews(ls@).skip(0) =~= vviews(ls@));
    while i < ls.len()
        invariant
            i <= ls@.len(),
            vviews(ls@).len() == ls@.len(),
            first_value(vviews(ls@), prefix@) == first_value(vviews(ls@).skip(i as int), prefix@),
        decreases ls.len() - i,
    {
        assert(vviews(ls@).skip(i as int)[0] == ls@[i as int]@);
        if let Some(v) = strip_prefix_str(&ls[i], prefix) {
            return Some(string_of(&v));
        }
        assert(vviews(ls@).skip(i as int).drop_first() =~= vviews(ls@).skip(i + 1));
        i = i + 1;
    }
    None
}

fn last_word(v: &Vec<char>) -> (r: Vec<char>)
    ensures
        r@ == (if words(v@).len() > 0 { words(v@).last() } else { "daily"@ }),
{
    let w = split_ws(v);
    if w.len() > 0 {
        assert(vviews(w@).last() == w@[w@.len() - 1]@);
        w[w.len() - 1].clone()
    } else {
        chars_of("daily")
    }
}

/// The timer's state from three `systemctl` outputs: `is-active` for the
/// timer, `show` of its calendar, delay and last trigger, and `show
/// --property=Result` of the service.
pub fn timer_config_from(is_active: &str, props: &str, service: &str) -> (r: TimerConfig)
    ensures
        r.enabled == (trim(is_active@) == "active"@),
        r.calendar@ == props_of(lines(props@)).calendar,
        r.randomized_delay@ == props_of(lines(props@)).delay,
        opt_eq(r.last_trigger, props_of(lines(props@)).last),
        opt_eq(r.service_result, first_value(lines(service@), "Result="@)),
{
    let enabled = eq_str(&trim_chars(&chars_of(is_active)), "active");
    let ls = split_lines(&chars_of(props));
    let mut calendar = chars_of("daily");
    let mut delay = chars_of("1h");
    let mut last: Option<Vec<char>> = None;
    let mut i: usize = 0;
    assert(vviews(ls@).take(0) =~= Seq::<Seq<char>>::empty());
    while i < ls.len()
        invariant
            i <= ls@.len(),
            vviews(ls@).len() == ls@.len(),
            props_of(vviews(ls@).take(i as int)).calendar == calendar@,
            props_of(vviews(ls@).take(i as int)).delay == delay@,
            props_of(vviews(ls@).take(i as int)).last == (match last {
                Some(v) => Some(v@),
                None => None::<Seq<char>>,
            }),
        decreases ls.len() - i,
    {
        let l = &ls[i];
        assert(vviews(ls@).take(i + 1).drop_last() =~= vviews(ls@).take(i as int));
        assert(vviews(ls@).take(i + 1).last() == l@);
        if let Some(v) = strip_prefix_str(l, "TimersCalendar=") {
            calendar = last_word(&v);
        } else if let Some(v) = strip_prefix_str(l, "RandomizedDelayUSec=") {
            delay = v;
        } else if let Some(v) = strip_prefix_str(l, "LastTriggerUSec=") {
            if v.len() > 0 {
                last = Some(v);
            }
        }
        i = i + 1;
    }
    assert(vviews(ls@).take(ls@.len() as int) =~= vviews(ls@));
    let sl = split_lines(&chars_of(service));
    TimerConfig {
        enabled,
        calendar: string_of(&calendar),
        randomized_delay: string_of(&delay),
        last_trigger: match last {
            Some(v) => Some(string_of(&v)),
            None => None,
        },
        service_result: first_value_exec(&sl, "Result="),
    }
}

/// The service unit that runs `{exe} --sync --config {config}` at idle priority.
pub open spec fn service_unit(exe: Seq<char>, config: Seq<char>) -> Seq<char> {
    "[Unit]\nDescription=backsnap System Sync\nAfter=local-fs.target\n\n[Service]\nType=oneshot\nExecStart="@
        + exe + " --sync --config "@ + config
        + "\nNice=19\nIOSchedulingClass=idle\n\n[Install]\nWantedBy=multi-user.target\n"@
}

/// The timer unit with its calendar and randomised delay.
pub open spec fn timer_unit(calendar: Seq<char>, delay: Seq<char>) -> Seq<char> {
    "[Unit]\nDescription=backsnap Sync Timer\n\n[Timer]\nOnCalendar="@ + calendar
        + "\nRandomizedDelaySec="@ + delay + "\nPersistent=true\n\n[Install]\nWantedBy=timers.target\n"@
}

pub fn service_unit_text(exe: &str, config: &str) -> (r: String)
    ensures
        r@ == service_unit(exe@, config@),
{
    let mut v: Vec<char> = Vec::new();
    push_str(&mut v, "[Unit]\nDescription=backsnap System Sync\nAfter=local-fs.target\n\n[Service]\nType=oneshot\nExecStart=");
    push_str(&mut v, exe);
    push_str(&mut v, " --sync --config ");
    push_str(&mut v, config);
    push_str(&mut v, "\nNice=19\nIOSchedulingClass=idle\n\n[Install]\nWantedBy=multi-user.target\n");
    string_of(&v)
}

pub fn timer_unit_text(calendar: &str, delay: &str) -> (r: String)
    ensures
        r@ == timer_unit(calendar@, delay@),
{
    let mut v: Vec<char> = Vec::new();
    push_str(&mut v, "[Unit]\nDescription=backsnap Sync Timer\n\n[Timer]\nOnCalendar=");
    push_str(&mut v, calendar);
    push_str(&mut v, "\nRandomizedDelaySec=");
    push_str(&mut v, delay);
    push_str(&mut v, "\nPersistent=true\n\n[Install]\nWantedBy=timers.target\n");
    string_of(&v)
}

/// What an installed timer reports.
pub open spec fn installed_message(unit: Seq<char>, calendar: Seq<char>, delay: Seq<char>, exe: Seq<char>, config: Seq<char>) -> Seq<char> {
    "Timer "@ + unit + " installiert und aktiviert.\nIntervall: "@ + calendar + ", Verzögerung: "@ + delay
        + "\nBinary: "@ + exe + "\nConfig: "@ + config
}

pub fn timer_installed_result(unit: &str, calendar: &str, delay: &str, exe: &str, config: &str) -> (r: CommandResult)
    ensures
        r.success,
        r.stdout@ == installed_message(unit@, calendar@, delay@, exe@, config@),
        r.stderr@.len() == 0,
        r.exit_code == 0,
{
    let mut v: Vec<char> = Vec::new();
    push_str(&mut v, "Timer ");
    push_str(&mut v, unit);
    push_str(&mut v, " installiert und aktiviert.\nIntervall: ");
    push_str(&mut v, calendar);
    push_str(&mut v, ", Verzögerung: ");
    push_str(&mut v, delay);
    push_str(&mut v, "\nBinary: ");
    push_str(&mut v, exe);
    push_str(&mut v, "\nConfig: ");
    push_str(&mut v, config);
    CommandResult { success: true, stdout: string_of(&v), stderr: String::new(), exit_code: 0 }
}

pub fn timer_uninstalled_result(unit: &str) -> (r: CommandResult)
    ensures
        r.success,
        r.stdout@ == "Timer "@ + unit@ + " deinstalliert"@,
        r.stderr@.len() == 0,
        r.exit_code == 0,
{
    let mut v: Vec<char> = Vec::new();
    push_str(&mut v, "Timer ");
    push_str(&mut v, unit);
    push_str(&mut v, " deinstalliert");
    CommandResult { success: true, stdout: string_of(&v), stderr: String::new(), exit_code: 0 }
}

} // verus!
