//! The decisions of the scan loop: what to do with a report, a clock tick or
//! an interrupt. The loop itself (sockets, timers, signals, printing) runs
//! the actions it is handed and feeds back what happened.

use vstd::prelude::*;
use crate::cli::ScanArgs;
use crate::devices::{Device, DeviceTable, DeviceView, table_add, views};

verus! {

/// The switches the loop decides by: rows printed at the end rather than
/// as found, when the scan ends, and how often probes are sent again (both
/// in milliseconds; `None` for never).
#[derive(Debug, Clone, Copy, PartialEq, Eq, Structural)]
pub struct ScanOpts {
    pub batch: bool,
    pub timeout_ms: Option<u64>,
    pub rescan_ms: Option<u64>,
}

/// What happened since the last step: a report from an engine, a look at the
/// clock (time since the scan began, and since the last round of probes),
/// or an interrupt (Ctrl+C).
#[derive(Debug)]
pub enum ScanEvent {
    Report(Device),
    Tick { elapsed_ms: u64, since_round_ms: u64 },
    Interrupted,
}

/// What the loop does next: print a row, send a round of probes, wait for
/// the next event, or end with the rows to print (in discovery order) and an
/// exit code.
#[derive(Debug)]
pub enum ScanAction {
    Print(Device),
    SendRound,
    Wait,
    Finish { rows: Vec<Device>, code: i32 },
}

/// Seconds as milliseconds, saturating at `u64::MAX`.
pub open spec fn millis_of(secs: u64) -> u64 {
    if secs * 1000 > u64::MAX {
        u64::MAX
    } else {
        (secs * 1000) as u64
    }
}

fn millis(secs: u64) -> (ms: u64)
    ensures
        ms == millis_of(secs),
{
    if secs > u64::MAX / 1000 {
        u64::MAX
    } else {
        secs * 1000
    }
}

/// The loop's switches from the scan arguments (`--batch`, `--timeout`,
/// `--rescan`, the last two in seconds). A rescan period of zero is no
/// period at all and is left out.
pub fn scan_opts(args: &ScanArgs) -> (o: ScanOpts)
    requires
        args.rescan != Some(0u64),
    ensures
        o.batch == args.batch,
        o.timeout_ms == (match args.timeout {
            Some(s) => Some(millis_of(s)),
            None => None,
        }),
        o.rescan_ms == (match args.rescan {
            Some(s) => Some(millis_of(s)),
            None => None,
        }),
        o.rescan_ms != Some(0u64),
{
    let timeout_ms = match args.timeout {
        Some(s) => Some(millis(s)),
        None => None,
    };
    let rescan_ms = match args.rescan {
        Some(s) => Some(millis(s)),
        None => None,
    };
    ScanOpts { batch: args.batch, timeout_ms, rescan_ms }
}

/// The scan has run its time.
pub open spec fn timeout_reached(opts: ScanOpts, elapsed_ms: u64) -> bool {
    match opts.timeout_ms {
        Some(t) => elapsed_ms >= t,
        None => false,
    }
}

/// A new round of probes is due.
pub open spec fn rescan_due(opts: ScanOpts, since_round_ms: u64) -> bool {
    match opts.rescan_ms {
        Some(r) => since_round_ms >= r,
        None => false,
    }
}

/// The rows printed when the scan ends normally: all entries in discovery
/// order in batch mode, none otherwise (they were printed as found).
pub open spec fn final_rows(opts: ScanOpts, entries: Seq<DeviceView>) -> Seq<DeviceView> {
    if opts.batch {
        entries
    } else {
        Seq::empty()
    }
}

/// What a step does, as plain values: for a report, the table after it and
/// the row to print at once (none in batch mode); for a tick, the end of the
/// scan (exit code 0, the batch rows) once the timeout is reached, else a
/// round of probes when one is due, else waiting; for an interrupt, the end
/// with exit code 130 and nothing more printed.
pub open spec fn step_ok(
    generic: bool,
    before: Seq<DeviceView>,
    after: Seq<DeviceView>,
    opts: ScanOpts,
    ev: ScanEvent,
    a: ScanAction,
    enable_ipv4: bool,
    enable_ipv6: bool,
) -> bool {
    match ev {
        ScanEvent::Report(d) => {
            let (entries, row) = table_add(generic, before, d@, enable_ipv4, enable_ipv6);
            &&& after == entries
            &&& if !opts.batch && row is Some {
                a matches ScanAction::Print(p) && p@ == row->0
            } else {
                a is Wait
            }
        },
        ScanEvent::Tick { elapsed_ms, since_round_ms } => {
            &&& after == before
            &&& if timeout_reached(opts, elapsed_ms) {
                a matches ScanAction::Finish { rows, code } && code == 0 && views(rows@) == final_rows(opts, before)
            } else if rescan_due(opts, since_round_ms) {
                a is SendRound
            } else {
                a is Wait
            }
        },
        ScanEvent::Interrupted => {
            &&& after == before
            &&& a matches ScanAction::Finish { rows, code } && code == 130 && rows@.len() == 0
        },
    }
}

/// Copies of all entries, in discovery order.
fn table_rows(table: &DeviceTable) -> (rows: Vec<Device>)
    ensures
        views(rows@) == table.entries_view(),
{
    let all = table.all();
    let mut rows: Vec<Device> = Vec::new();
    let mut i: usize = 0;
    while i < all.len()
        invariant
            i <= all@.len(),
            all@.len() == table.entries_view().len(),
            forall|j: int| 0 <= j < all@.len() ==> (#[trigger] all@[j])@ == table.entries_view()[j],
            views(rows@) == table.entries_view().subrange(0, i as int),
        decreases all@.len() - i,
    {
        let d = all[i].duplicate();
        let ghost before = rows@;
        rows.push(d);
        i += 1;
        proof {
            assert(views(rows@) =~= views(before).push(d@));
            assert(table.entries_view().subrange(0, i as int) =~= table.entries_view().subrange(0, i - 1).push(d@));
        }
    }
    assert(table.entries_view().subrange(0, all@.len() as int) =~= table.entries_view());
    rows
}

/// One step of the scan loop: the event is applied to the table, and the
/// action to take next is returned (see `step_ok`).
pub fn scan_step(table: &mut DeviceTable, opts: ScanOpts, ev: ScanEvent, enable_ipv4: bool, enable_ipv6: bool) -> (a: ScanAction)
    requires
        old(table).wf(),
    ensures
        final(table).wf(),
        final(table).generic() == old(table).generic(),
        step_ok(old(table).generic(), old(table).entries_view(), final(table).entries_view(), opts, ev, a, enable_ipv4, enable_ipv6),
{
    match ev {
        ScanEvent::Report(d) => {
            let row = table.add(d, enable_ipv4, enable_ipv6);
            match row {
                Some(r) => if opts.batch {
                    ScanAction::Wait
                } else {
                    ScanAction::Print(r)
                },
                None => ScanAction::Wait,
            }
        },
        ScanEvent::Tick { elapsed_ms, since_round_ms } => {
            let timed_out = match opts.timeout_ms {
                Some(t) => elapsed_ms >= t,
                None => false,
            };
            let due = match opts.rescan_ms {
                Some(r) => since_round_ms >= r,
                None => false,
            };
            if timed_out {
                let rows = if opts.batch { table_rows(table) } else { Vec::new() };
                proof {
                    if !opts.batch {
                        assert(views(rows@) =~= Seq::<DeviceView>::empty());
                    }
                }
                ScanAction::Finish { rows, code: 0 }
            } else if due {
                ScanAction::SendRound
            } else {
                ScanAction::Wait
            }
        },
        ScanEvent::Interrupted => ScanAction::Finish { rows: Vec::new(), code: 130 },
    }
}

/// However long the scan has run, an interrupt ends it with exit code 130
/// and prints nothing more; a report never ends it.
pub proof fn law_interrupt_ends_with_130(
    generic: bool,
    before: Seq<DeviceView>,
    after: Seq<DeviceView>,
    opts: ScanOpts,
    ev: ScanEvent,
    a: ScanAction,
    enable_ipv4: bool,
    enable_ipv6: bool,
)
    requires
        step_ok(generic, before, after, opts, ev, a, enable_ipv4, enable_ipv6),
    ensures
        ev is Interrupted ==> (a matches ScanAction::Finish { rows, code } && code == 130 && rows@.len() == 0),
        ev is Report ==> !(a is Finish) && !(a is SendRound),
        !(ev is Report) ==> after == before,
{
}

/// In batch mode no row is printed before the end, and the end (by the
/// timeout) prints every entry once, in discovery order.
pub proof fn law_batch_prints_at_end(
    generic: bool,
    before: Seq<DeviceView>,
    after: Seq<DeviceView>,
    opts: ScanOpts,
    ev: ScanEvent,
    a: ScanAction,
    enable_ipv4: bool,
    enable_ipv6: bool,
)
    requires
        opts.batch,
        step_ok(generic, before, after, opts, ev, a, enable_ipv4, enable_ipv6),
    ensures
        !(a is Print),
        (ev is Tick && a is Finish) ==> (a matches ScanAction::Finish { rows, code } && views(rows@) == before && code == 0),
{
}

/// Without a timeout the clock never ends the scan; without a rescan period
/// the clock never asks for another round.
pub proof fn law_clock_without_limits(opts: ScanOpts, elapsed_ms: u64, since_round_ms: u64)
    ensures
        opts.timeout_ms is None ==> !timeout_reached(opts, elapsed_ms),
        opts.rescan_ms is None ==> !rescan_due(opts, since_round_ms),
        opts.timeout_ms matches Some(t) && elapsed_ms >= t ==> timeout_reached(opts, elapsed_ms),
{
}

} // verus!
