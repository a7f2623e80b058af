//! What the reports show, told by what they are about.
use super::table::{cells_text, padded, row_text, table_text};
use super::{
    decision_row, device_headers, device_row, device_rows, dry_run_outcome, dry_run_text,
    response_text, update_row, DryRunReportView,
};
use crate::config::Mode;
use crate::control::ResponseView;
use crate::device::DeviceStateView;
use crate::error::ErrorView;
use crate::policy::{policy_decision, Action, DecisionView, PolicyView};
use crate::sysfs::controllers::ControllerAuthorizationUpdateView;
use crate::sysfs::UsbDeviceView;
use crate::text::{debug_text, decimal, upper};
use vstd::prelude::*;

verus! {

/// An action, as reports name it.
pub open spec fn shown_action(action: Action) -> Seq<char> {
    if action == Action::Allow {
        "ALLOW"@
    } else {
        "BLOCK"@
    }
}

/// Where a decision comes from, as reports name it.
pub open spec fn shown_source(decision: DecisionView) -> Seq<char> {
    if decision.rule is Some {
        "RULE "@ + debug_text(decision.rule->0)
    } else {
        "REASON "@ + debug_text(decision.reason)
    }
}

proof fn lemma_shown_action(action: Action)
    ensures
        upper(crate::policy::action_name(action)) == shown_action(action),
{
    reveal_strlit("allow");
    reveal_strlit("block");
    reveal_strlit("ALLOW");
    reveal_strlit("BLOCK");
    assert(upper("allow"@) =~= "ALLOW"@);
    assert(upper("block"@) =~= "BLOCK"@);
}

/// The row of a device shows its number, its port, its ids, its name or a dash, whether it is a
/// hub, whether it is authorized as far as that is known, what was decided and by what.
pub proof fn law_device_rows(state: DeviceStateView)
    ensures
        ({
            let row = device_row(state);
            let d = state.device;
            &&& row.len() == 8
            &&& row[0] == decimal(d.id as nat)
            &&& row[1] == d.port_path
            &&& row[2] == d.vendor_id + seq![':'] + d.product_id
            &&& d.product_name matches Some(name) ==> name.len() > 0 ==> row[3] == name
            &&& (d.product_name matches Some(name) ==> name.len() == 0) ==> row[3] == seq!['-']
            &&& row[4] == (if d.is_hub {
                "YES"@
            } else {
                "NO"@
            })
            &&& d.authorized == Some(true) ==> row[5] == "YES"@
            &&& d.authorized == Some(false) ==> row[5] == "NO"@
            &&& d.authorized is None ==> row[5] == "UNKNOWN"@
            &&& row[6] == shown_action(state.decision.action)
            &&& row[7] == shown_source(state.decision)
        }),
{
    reveal_strlit(":");
    reveal_strlit("-");
    assert(":"@ =~= seq![':']);
    assert("-"@ =~= seq!['-']);
    lemma_shown_action(state.decision.action);
}

/// The row of a decision shows the number of the device, what was decided and by what.
pub proof fn law_decision_rows(decision: DecisionView)
    ensures
        decision_row(decision).len() == 3,
        decision_row(decision)[0] == decimal(decision.device_id as nat),
        decision_row(decision)[1] == shown_action(decision.action),
        decision_row(decision)[2] == shown_source(decision),
{
    lemma_shown_action(decision.action);
}

/// The row of a controller shows its name, the value that it has as far as that is known, and the
/// one that it would get.
pub proof fn law_controller_rows(update: ControllerAuthorizationUpdateView)
    ensures
        update_row(update).len() == 3,
        update_row(update)[0] == update.controller,
        update.current matches Some(current) ==> update_row(update)[1] == current,
        update.current is None ==> update_row(update)[1] == "UNKNOWN"@,
        update_row(update)[2] == update.desired,
{
}

/// Each kind of response is printed as the table of its name: one row for each device or decision,
/// in their order. An error is not printed but passed on.
pub proof fn law_responses_are_printed(response: ResponseView)
    ensures
        response matches ResponseView::Devices { devices } ==> response_text(response) == Ok::<
            Seq<char>,
            ErrorView,
        >(
            table_text(
                seq!["CONNECTED DEVICES REPORT"@],
                seq![
                    "ID"@,
                    "PORT"@,
                    "VID:PID"@,
                    "NAME"@,
                    "HUB"@,
                    "AUTHORIZED"@,
                    "ACTION"@,
                    "SOURCE"@,
                ],
                devices.map_values(|state: DeviceStateView| device_row(state)),
            ),
        ),
        response matches ResponseView::Decisions { decisions } ==> response_text(response) == Ok::<
            Seq<char>,
            ErrorView,
        >(
            table_text(
                seq!["POLICY DECISION REPORT"@],
                seq!["DEVICE"@, "ACTION"@, "SOURCE"@],
                decisions.map_values(|decision: DecisionView| decision_row(decision)),
            ),
        ),
        response matches ResponseView::Status {
            mode,
            device_count,
            override_count,
            socket_path,
            policy_path,
        } ==> response_text(response) == Ok::<Seq<char>, ErrorView>(
            table_text(
                seq!["STATUS REPORT"@],
                seq!["FIELD"@, "VALUE"@],
                seq![
                    seq![
                        "MODE"@,
                        if mode == Mode::Enforce {
                            "ENFORCE"@
                        } else {
                            "DRY RUN"@
                        },
                    ],
                    seq!["DEVICES"@, decimal(device_count)],
                    seq!["MANUAL OVERRIDES"@, decimal(override_count)],
                    seq!["SOCKET"@, socket_path],
                    seq!["POLICY"@, policy_path],
                ],
            ),
        ),
        response matches ResponseView::Done { message } ==> response_text(response) == Ok::<
            Seq<char>,
            ErrorView,
        >(table_text(seq!["COMMAND RESULT"@], seq!["MESSAGE"@], seq![seq![upper(message)]])),
        response matches ResponseView::Error { message } ==> response_text(response) == Err::<
            Seq<char>,
            ErrorView,
        >(ErrorView::Protocol(message)),
{
    match response {
        ResponseView::Devices { devices } => {
            assert(device_rows(devices) =~= devices.map_values(
                |state: DeviceStateView| device_row(state),
            ));
        },
        ResponseView::Decisions { decisions } => {
            assert(Seq::new(decisions.len(), |i: int| decision_row(decisions[i]))
                =~= decisions.map_values(|decision: DecisionView| decision_row(decision)));
        },
        _ => {},
    }
}

/// A row holds every one of its cells, in their order, each whole and behind a line and a space.
pub proof fn law_rows_show_their_cells(cells: Seq<Seq<char>>, widths: Seq<nat>, k: int)
    requires
        0 <= k < cells.len(),
    ensures
        ({
            let at = cells_text(cells.take(k), widths).len() + 2;
            let row = row_text(cells, widths);
            &&& at + cells[k].len() <= row.len()
            &&& row.subrange(at as int, (at + cells[k].len()) as int) == cells[k]
            &&& row[at - 1] == ' ' && row[at - 2] == '│'
        }),
{
    reveal_strlit("│ ");
    reveal_strlit(" ");
    reveal_strlit("│\n");
    lemma_cell(cells, widths, k);
    let at = cells_text(cells.take(k), widths).len() + 2;
    let row = row_text(cells, widths);
    let body = cells_text(cells, widths);
    assert(row.subrange(at as int, (at + cells[k].len()) as int) =~= body.subrange(
        at as int,
        (at + cells[k].len()) as int,
    ));
    assert(row[at - 1] == body[at - 1] && row[at - 2] == body[at - 2]);
}

proof fn lemma_cell(cells: Seq<Seq<char>>, widths: Seq<nat>, k: int)
    requires
        0 <= k < cells.len(),
    ensures
        ({
            let at = cells_text(cells.take(k), widths).len() + 2;
            let body = cells_text(cells, widths);
            &&& at + cells[k].len() <= body.len()
            &&& body.subrange(at as int, (at + cells[k].len()) as int) == cells[k]
            &&& body[at - 1] == ' ' && body[at - 2] == '│'
        }),
    decreases cells.len(),
{
    reveal_strlit("│ ");
    reveal_strlit(" ");
    let n = cells.len() as int;
    let rest = cells.drop_last();
    let before = cells_text(rest, widths);
    let body = cells_text(cells, widths);
    let own = padded(cells.last(), widths[n - 1]);
    assert(body =~= before + ("│ "@ + own + " "@));
    if k == n - 1 {
        assert(cells.take(k) =~= rest);
        let at = before.len() + 2;
        assert(own.take(cells[k].len() as int) =~= cells[k]);
        assert forall|j: int| 0 <= j < cells[k].len() implies #[trigger] body[at + j]
            == cells[k][j] by {
            assert(body[at + j] == own[j]);
            assert(own[j] == own.take(cells[k].len() as int)[j]);
        }
        assert(body.subrange(at as int, (at + cells[k].len()) as int) =~= cells[k]);
    } else {
        assert(rest[k] == cells[k]);
        assert(rest.take(k) =~= cells.take(k));
        lemma_cell(rest, widths, k);
        let at = cells_text(cells.take(k), widths).len() + 2;
        assert(body.subrange(at as int, (at + cells[k].len()) as int) =~= before.subrange(
            at as int,
            (at + cells[k].len()) as int,
        ));
        assert(body[at - 1] == before[at - 1] && body[at - 2] == before[at - 2]);
    }
}

/// A dry run reports what the policy alone decides about each device that was found, numbered from
/// one on in their order, and the updates that controllers would get. It fails with what went
/// wrong first.
pub proof fn law_dry_runs(
    policy: PolicyView,
    updates: Result<Seq<ControllerAuthorizationUpdateView>, ErrorView>,
    devices: Result<Seq<UsbDeviceView>, ErrorView>,
)
    ensures
        updates matches Err(error) ==> dry_run_outcome(policy, updates, devices) == Err::<
            DryRunReportView,
            ErrorView,
        >(error),
        updates is Ok ==> (devices matches Err(error) ==> dry_run_outcome(policy, updates, devices)
            == Err::<DryRunReportView, ErrorView>(error)),
        updates is Ok && devices is Ok && devices->Ok_0.len() <= u32::MAX ==> (dry_run_outcome(
            policy,
            updates,
            devices,
        ) matches Ok(report) && {
            let found = devices->Ok_0;
            &&& report.controller_updates == updates->Ok_0
            &&& report.devices.len() == found.len()
            &&& forall|i: int|
                0 <= i < found.len() ==> {
                    let state = #[trigger] report.devices[i];
                    &&& state.device == (UsbDeviceView { id: (i + 1) as u32, ..found[i] })
                    &&& state.decision == policy_decision(policy, state.device)
                }
        }),
{
}

/// The report of a dry run shows the controllers first, where any would be set, and then every
/// device.
pub proof fn law_dry_run_reports(report: DryRunReportView)
    ensures
        ({
            let devices = table_text(
                seq!["DRY RUN REPORT"@, "DEVICE DECISION PREVIEW"@],
                device_headers(),
                report.devices.map_values(|state: DeviceStateView| device_row(state)),
            );
            let controllers = table_text(
                seq!["DRY RUN REPORT"@, "CONTROLLER DEFAULT PREVIEW"@],
                seq!["CONTROLLER"@, "CURRENT"@, "DESIRED"@],
                report.controller_updates.map_values(
                    |update: ControllerAuthorizationUpdateView| update_row(update),
                ),
            );
            dry_run_text(report) == (if report.controller_updates.len() > 0 {
                controllers + devices
            } else {
                devices
            })
        }),
{
    assert(device_rows(report.devices) =~= report.devices.map_values(
        |state: DeviceStateView| device_row(state),
    ));
    let updates = report.controller_updates;
    assert(Seq::new(updates.len(), |i: int| update_row(updates[i])) =~= updates.map_values(
        |update: ControllerAuthorizationUpdateView| update_row(update),
    ));
}

} // verus!
