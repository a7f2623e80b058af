//! What the command line tool prints.
use crate::config::Mode;
use crate::control::{Response, ResponseView};
use crate::device::{DeviceState, DeviceStateView};
use crate::error::{failure, Error, ErrorView};
use crate::policy::{action_name, Decision, DecisionView, Policy, PolicyView};
use crate::policy::policy_decision;
use crate::sysfs::controllers::{
    updates_result, ControllerAuthorizationUpdate, ControllerAuthorizationUpdateView,
};
use crate::sysfs::scanner::devices_result;
use crate::sysfs::{UsbDevice, UsbDeviceView};
use crate::text::{debug_string, debug_text, decimal, decimal_string, to_upper, upper};
use table::{render_report_table, table_text};
use vstd::prelude::*;

pub mod lines;
pub mod report_laws;
pub mod table;

verus! {

// ---- Cells -----------------------------------------------------------------------------------

/// A text, or a dash where there is none or it is empty.
pub open spec fn text_or_dash(value: Option<Seq<char>>) -> Seq<char> {
    match value {
        Some(text) => if text.len() > 0 {
            text
        } else {
            "-"@
        },
        None => "-"@,
    }
}

fn non_empty_or_dash(value: &Option<String>) -> (r: String)
    ensures
        r@ == text_or_dash(value.deep_view()),
{
    match value {
        Some(text) => {
            if text.unicode_len() > 0 {
                text.clone()
            } else {
                "-".to_owned()
            }
        },
        None => "-".to_owned(),
    }
}

/// Yes or no.
pub open spec fn yes_no_text(value: bool) -> Seq<char> {
    if value {
        "YES"@
    } else {
        "NO"@
    }
}

pub fn yes_no(value: bool) -> (r: &'static str)
    ensures
        r@ == yes_no_text(value),
{
    if value {
        "YES"
    } else {
        "NO"
    }
}

/// Whether a device is authorized, where that is known.
pub open spec fn authorized_text(value: Option<bool>) -> Seq<char> {
    match value {
        Some(authorized) => yes_no_text(authorized),
        None => "UNKNOWN"@,
    }
}

pub fn authorized_label(value: Option<bool>) -> (r: &'static str)
    ensures
        r@ == authorized_text(value),
{
    match value {
        Some(authorized) => yes_no(authorized),
        None => "UNKNOWN",
    }
}

/// The name of a mode.
pub open spec fn mode_text(mode: Mode) -> Seq<char> {
    match mode {
        Mode::Enforce => "ENFORCE"@,
        Mode::DryRun => "DRY RUN"@,
    }
}

pub fn mode_label(mode: Mode) -> (r: &'static str)
    ensures
        r@ == mode_text(mode),
{
    match mode {
        Mode::Enforce => "ENFORCE",
        Mode::DryRun => "DRY RUN",
    }
}

/// Where a decision comes from: the rule that made it or, where none did, the reason. Either is
/// given in quotes.
pub open spec fn source_text(by_rule: bool, quoted: Seq<char>) -> Seq<char> {
    if by_rule {
        "RULE "@ + quoted
    } else {
        "REASON "@ + quoted
    }
}

pub fn source_label(by_rule: bool, quoted: &str) -> (r: String)
    ensures
        r@ == source_text(by_rule, quoted@),
{
    let mut label = if by_rule {
        "RULE "
    } else {
        "REASON "
    }.to_owned();
    label.append(quoted);
    label
}

/// Where a decision comes from.
pub open spec fn decision_source_text(decision: DecisionView) -> Seq<char> {
    match decision.rule {
        Some(rule) => source_text(true, debug_text(rule)),
        None => source_text(false, debug_text(decision.reason)),
    }
}

/// Where a decision comes from: the rule that made it or, where none did, the reason.
pub fn decision_source(decision: &Decision) -> (r: String)
    ensures
        r@ == decision_source_text(decision@),
{
    match &decision.rule {
        Some(rule) => {
            let quoted = debug_string(rule.as_str());
            source_label(true, quoted.as_str())
        },
        None => {
            let quoted = debug_string(decision.reason.as_str());
            source_label(false, quoted.as_str())
        },
    }
}

// ---- Tables ----------------------------------------------------------------------------------

/// The row of a device.
pub open spec fn device_row(state: DeviceStateView) -> Seq<Seq<char>> {
    seq![
        decimal(state.device.id as nat),
        state.device.port_path,
        state.device.vendor_id + ":"@ + state.device.product_id,
        text_or_dash(state.device.product_name),
        yes_no_text(state.device.is_hub),
        authorized_text(state.device.authorized),
        upper(action_name(state.decision.action)),
        decision_source_text(state.decision),
    ]
}

/// The rows of some devices.
pub open spec fn device_rows(devices: Seq<DeviceStateView>) -> Seq<Seq<Seq<char>>> {
    Seq::new(devices.len(), |i: int| device_row(devices[i]))
}

/// What the columns of a table of devices are headed with.
pub open spec fn device_headers() -> Seq<Seq<char>> {
    seq![
        "ID"@,
        "PORT"@,
        "VID:PID"@,
        "NAME"@,
        "HUB"@,
        "AUTHORIZED"@,
        "ACTION"@,
        "SOURCE"@,
    ]
}

/// A table of devices.
pub open spec fn device_table(titles: Seq<Seq<char>>, devices: Seq<DeviceStateView>) -> Seq<char> {
    table_text(titles, device_headers(), device_rows(devices))
}

/// The row of a decision.
pub open spec fn decision_row(decision: DecisionView) -> Seq<Seq<char>> {
    seq![
        decimal(decision.device_id as nat),
        upper(action_name(decision.action)),
        decision_source_text(decision),
    ]
}

/// A table of decisions.
pub open spec fn decisions_table(decisions: Seq<DecisionView>) -> Seq<char> {
    table_text(
        seq!["POLICY DECISION REPORT"@],
        seq!["DEVICE"@, "ACTION"@, "SOURCE"@],
        Seq::new(decisions.len(), |i: int| decision_row(decisions[i])),
    )
}

/// The row of an update of a controller.
pub open spec fn update_row(update: ControllerAuthorizationUpdateView) -> Seq<Seq<char>> {
    seq![
        update.controller,
        match update.current {
            Some(current) => current,
            None => "UNKNOWN"@,
        },
        update.desired,
    ]
}

/// A table of updates of controllers.
pub open spec fn updates_table(updates: Seq<ControllerAuthorizationUpdateView>) -> Seq<char> {
    table_text(
        seq!["DRY RUN REPORT"@, "CONTROLLER DEFAULT PREVIEW"@],
        seq!["CONTROLLER"@, "CURRENT"@, "DESIRED"@],
        Seq::new(updates.len(), |i: int| update_row(updates[i])),
    )
}

/// A table that holds one message.
pub open spec fn message_table(title: Seq<char>, message: Seq<char>) -> Seq<char> {
    table_text(seq![title], seq!["MESSAGE"@], seq![seq![message]])
}

/// The table of the daemon's status.
pub open spec fn status_table(
    mode: Mode,
    device_count: nat,
    override_count: nat,
    socket_path: Seq<char>,
    policy_path: Seq<char>,
) -> Seq<char> {
    table_text(
        seq!["STATUS REPORT"@],
        seq!["FIELD"@, "VALUE"@],
        seq![
            seq!["MODE"@, mode_text(mode)],
            seq!["DEVICES"@, decimal(device_count)],
            seq!["MANUAL OVERRIDES"@, decimal(override_count)],
            seq!["SOCKET"@, socket_path],
            seq!["POLICY"@, policy_path],
        ],
    )
}

/// What is printed of a response. An error is not printed but passed on.
pub open spec fn response_text(response: ResponseView) -> Result<Seq<char>, ErrorView> {
    match response {
        ResponseView::Done { message } => Ok(message_table("COMMAND RESULT"@, upper(message))),
        ResponseView::Status {
            mode,
            device_count,
            override_count,
            socket_path,
            policy_path,
        } => Ok(status_table(mode, device_count, override_count, socket_path, policy_path)),
        ResponseView::Devices { devices } => Ok(
            device_table(seq!["CONNECTED DEVICES REPORT"@], devices),
        ),
        ResponseView::Decisions { decisions } => Ok(decisions_table(decisions)),
        ResponseView::Error { message } => Err(ErrorView::Protocol(message)),
    }
}

/// The plain value of a text, or of what went wrong.
pub open spec fn printed(r: Result<String, Error>) -> Result<Seq<char>, ErrorView> {
    match r {
        Ok(text) => Ok(text@),
        Err(error) => Err(error@),
    }
}

fn device_table_row(status: &DeviceState) -> (r: Vec<String>)
    ensures
        r.deep_view() == device_row(status@),
{
    let device = &status.device;
    let decision = &status.decision;
    let mut ids = device.vendor_id.clone();
    ids.append(":");
    ids.append(device.product_id.as_str());
    let row = vec![
        decimal_string(device.id as u64),
        device.port_path.clone(),
        ids,
        non_empty_or_dash(&device.product_name),
        yes_no(device.is_hub).to_owned(),
        authorized_label(device.authorized).to_owned(),
        to_upper(decision.action.as_str()),
        decision_source(decision),
    ];
    assert(row.deep_view() =~= device_row(status@));
    row
}

/// Adds a table of devices to what is printed.
fn render_device_table(output: &mut String, titles: &Vec<String>, devices: &Vec<DeviceState>) -> (r:
    Result<(), Error>)
    ensures
        r is Ok,
        final(output)@ == old(output)@ + device_table(titles.deep_view(), devices.deep_view()),
{
    let ghost all = devices.deep_view();
    let mut rows: Vec<Vec<String>> = Vec::new();
    for i in 0..devices.len()
        invariant
            all == devices.deep_view(),
            rows@.len() == i,
            forall|j: int| 0 <= j < i ==> (#[trigger] rows@[j]).deep_view() == device_row(all[j]),
    {
        assert(all[i as int] == devices@[i as int]@);
        rows.push(device_table_row(&devices[i]));
    }
    assert(rows.deep_view() =~= device_rows(all));
    let headers = vec![
        "ID".to_owned(),
        "PORT".to_owned(),
        "VID:PID".to_owned(),
        "NAME".to_owned(),
        "HUB".to_owned(),
        "AUTHORIZED".to_owned(),
        "ACTION".to_owned(),
        "SOURCE".to_owned(),
    ];
    assert(headers.deep_view() =~= device_headers());
    render_report_table(output, titles, &headers, &rows)
}

/// Adds a table of decisions to what is printed.
fn render_decisions_table(output: &mut String, decisions: &Vec<Decision>) -> (r: Result<(), Error>)
    ensures
        r is Ok,
        final(output)@ == old(output)@ + decisions_table(decisions.deep_view()),
{
    let ghost all = decisions.deep_view();
    let mut rows: Vec<Vec<String>> = Vec::new();
    for i in 0..decisions.len()
        invariant
            all == decisions.deep_view(),
            rows@.len() == i,
            forall|j: int| 0 <= j < i ==> (#[trigger] rows@[j]).deep_view() == decision_row(all[j]),
    {
        assert(all[i as int] == decisions@[i as int]@);
        let decision = &decisions[i];
        let row = vec![
            decimal_string(decision.device_id as u64),
            to_upper(decision.action.as_str()),
            decision_source(decision),
        ];
        assert(row.deep_view() =~= decision_row(all[i as int]));
        rows.push(row);
    }
    assert(rows.deep_view() =~= Seq::new(all.len(), |i: int| decision_row(all[i])));
    let titles = vec!["POLICY DECISION REPORT".to_owned()];
    let headers = vec!["DEVICE".to_owned(), "ACTION".to_owned(), "SOURCE".to_owned()];
    assert(titles.deep_view() =~= seq!["POLICY DECISION REPORT"@]);
    assert(headers.deep_view() =~= seq!["DEVICE"@, "ACTION"@, "SOURCE"@]);
    render_report_table(output, &titles, &headers, &rows)
}

/// Adds a table of updates of controllers to what is printed.
fn render_controller_updates_table(
    output: &mut String,
    updates: &Vec<ControllerAuthorizationUpdate>,
) -> (r: Result<(), Error>)
    ensures
        r is Ok,
        final(output)@ == old(output)@ + updates_table(updates.deep_view()),
{
    let ghost all = updates.deep_view();
    let mut rows: Vec<Vec<String>> = Vec::new();
    for i in 0..updates.len()
        invariant
            all == updates.deep_view(),
            rows@.len() == i,
            forall|j: int| 0 <= j < i ==> (#[trigger] rows@[j]).deep_view() == update_row(all[j]),
    {
        assert(all[i as int] == updates@[i as int]@);
        let update = &updates[i];
        let current = match &update.current {
            Some(current) => current.clone(),
            None => "UNKNOWN".to_owned(),
        };
        let row = vec![update.controller.clone(), current, update.desired.clone()];
        assert(row.deep_view() =~= update_row(all[i as int]));
        rows.push(row);
    }
    assert(rows.deep_view() =~= Seq::new(all.len(), |i: int| update_row(all[i])));
    let titles = vec!["DRY RUN REPORT".to_owned(), "CONTROLLER DEFAULT PREVIEW".to_owned()];
    let headers = vec!["CONTROLLER".to_owned(), "CURRENT".to_owned(), "DESIRED".to_owned()];
    assert(titles.deep_view() =~= seq!["DRY RUN REPORT"@, "CONTROLLER DEFAULT PREVIEW"@]);
    assert(headers.deep_view() =~= seq!["CONTROLLER"@, "CURRENT"@, "DESIRED"@]);
    render_report_table(output, &titles, &headers, &rows)
}

/// A table that holds one message.
pub fn render_message_report(title: &str, message: &str) -> (r: Result<String, Error>)
    ensures
        printed(r) == Ok::<_, ErrorView>(message_table(title@, message@)),
{
    let mut output = String::new();
    let titles = vec![title.to_owned()];
    let headers = vec!["MESSAGE".to_owned()];
    let row = vec![message.to_owned()];
    assert(row.deep_view() =~= seq![message@]);
    let rows = vec![row];
    assert(titles.deep_view() =~= seq![title@]);
    assert(headers.deep_view() =~= seq!["MESSAGE"@]);
    assert(rows.deep_view() =~= seq![seq![message@]]);
    match render_report_table(&mut output, &titles, &headers, &rows) {
        Err(error) => Err(error),
        Ok(()) => {
            assert(output@ =~= message_table(title@, message@));
            Ok(output)
        },
    }
}

fn field_row(field: &str, value: String) -> (r: Vec<String>)
    ensures
        r.deep_view() == seq![field@, value@],
{
    let row = vec![field.to_owned(), value];
    assert(row.deep_view() =~= seq![field@, value@]);
    row
}

fn render_status(
    mode: Mode,
    device_count: usize,
    override_count: usize,
    socket_path: &String,
    policy_path: &String,
) -> (r: Result<String, Error>)
    ensures
        printed(r) == Ok::<_, ErrorView>(
            status_table(
                mode,
                device_count as nat,
                override_count as nat,
                socket_path@,
                policy_path@,
            ),
        ),
{
    let rows = vec![
        field_row("MODE", mode_label(mode).to_owned()),
        field_row("DEVICES", decimal_string(device_count as u64)),
        field_row("MANUAL OVERRIDES", decimal_string(override_count as u64)),
        field_row("SOCKET", socket_path.clone()),
        field_row("POLICY", policy_path.clone()),
    ];
    let titles = vec!["STATUS REPORT".to_owned()];
    let headers = vec!["FIELD".to_owned(), "VALUE".to_owned()];
    assert(titles.deep_view() =~= seq!["STATUS REPORT"@]);
    assert(headers.deep_view() =~= seq!["FIELD"@, "VALUE"@]);
    assert(rows.deep_view() =~= seq![
        seq!["MODE"@, mode_text(mode)],
        seq!["DEVICES"@, decimal(device_count as nat)],
        seq!["MANUAL OVERRIDES"@, decimal(override_count as nat)],
        seq!["SOCKET"@, socket_path@],
        seq!["POLICY"@, policy_path@],
    ]);
    let mut output = String::new();
    match render_report_table(&mut output, &titles, &headers, &rows) {
        Err(error) => Err(error),
        Ok(()) => {
            assert(output@ =~= status_table(
                mode,
                device_count as nat,
                override_count as nat,
                socket_path@,
                policy_path@,
            ));
            Ok(output)
        },
    }
}

/// What is printed of a response.
pub fn render_response(response: &Response) -> (r: Result<String, Error>)
    ensures
        printed(r) == response_text(response@),
{
    match response {
        Response::Done { message } => {
            let text = to_upper(message.as_str());
            render_message_report("COMMAND RESULT", text.as_str())
        },
        Response::Status {
            mode,
            device_count,
            override_count,
            socket_path,
            policy_path,
        } => render_status(*mode, *device_count, *override_count, socket_path, policy_path),
        Response::Devices { devices } => {
            let mut output = String::new();
            let titles = vec!["CONNECTED DEVICES REPORT".to_owned()];
            assert(titles.deep_view() =~= seq!["CONNECTED DEVICES REPORT"@]);
            match render_device_table(&mut output, &titles, devices) {
                Err(error) => Err(error),
                Ok(()) => {
                    assert(output@ =~= device_table(
                        seq!["CONNECTED DEVICES REPORT"@],
                        devices.deep_view(),
                    ));
                    Ok(output)
                },
            }
        },
        Response::Decisions { decisions } => {
            let mut output = String::new();
            match render_decisions_table(&mut output, decisions) {
                Err(error) => Err(error),
                Ok(()) => {
                    assert(output@ =~= decisions_table(decisions.deep_view()));
                    Ok(output)
                },
            }
        },
        Response::Error { message } => Err(Error::Protocol(message.clone())),
    }
}

/// What the tool ends with after a response: an error where that was one.
pub fn response_outcome(response: Response) -> (r: Result<(), Error>)
    ensures
        failure(r) == (match response@ {
            ResponseView::Error { message } => Some(ErrorView::Protocol(message)),
            _ => None,
        }),
{
    match response {
        Response::Error { message } => Err(Error::Protocol(message)),
        _ => Ok(()),
    }
}

// ---- The dry run -----------------------------------------------------------------------------

/// What the daemon would do with the devices that are there.
#[derive(Debug, PartialEq, Eq)]
pub struct DryRunReport {
    pub controller_updates: Vec<ControllerAuthorizationUpdate>,
    pub devices: Vec<DeviceState>,
}

#[verifier::ext_equal]
pub struct DryRunReportView {
    pub controller_updates: Seq<ControllerAuthorizationUpdateView>,
    pub devices: Seq<DeviceStateView>,
}

impl View for DryRunReport {
    type V = DryRunReportView;

    open spec fn view(&self) -> DryRunReportView {
        DryRunReportView {
            controller_updates: self.controller_updates.deep_view(),
            devices: self.devices.deep_view(),
        }
    }
}

/// What is printed of a dry run.
pub open spec fn dry_run_text(report: DryRunReportView) -> Seq<char> {
    let devices = device_table(
        seq!["DRY RUN REPORT"@, "DEVICE DECISION PREVIEW"@],
        report.devices,
    );
    if report.controller_updates.len() == 0 {
        devices
    } else {
        updates_table(report.controller_updates) + devices
    }
}

/// What is printed of a dry run.
pub fn render_dry_run_report(report: &DryRunReport) -> (r: Result<String, Error>)
    ensures
        printed(r) == Ok::<_, ErrorView>(dry_run_text(report@)),
{
    let mut output = String::new();
    if report.controller_updates.len() > 0 {
        if let Err(error) = render_controller_updates_table(
            &mut output,
            &report.controller_updates,
        ) {
            return Err(error);
        }
        assert(output@ =~= updates_table(report@.controller_updates));
    }
    let ghost before = output@;
    let titles = vec!["DRY RUN REPORT".to_owned(), "DEVICE DECISION PREVIEW".to_owned()];
    assert(titles.deep_view() =~= seq!["DRY RUN REPORT"@, "DEVICE DECISION PREVIEW"@]);
    match render_device_table(&mut output, &titles, &report.devices) {
        Err(error) => Err(error),
        Ok(()) => {
            assert(output@ =~= dry_run_text(report@));
            Ok(output)
        },
    }
}

/// A device with its number in a report, and the policy's decision about it.
pub open spec fn reported_device(policy: PolicyView, device: UsbDeviceView, i: int) -> DeviceStateView {
    let numbered = UsbDeviceView { id: (i + 1) as u32, ..device };
    DeviceStateView { device: numbered, decision: policy_decision(policy, numbered) }
}

/// What a dry run reports, or what goes wrong with it. Devices are numbered from one on.
pub open spec fn dry_run_outcome(
    policy: PolicyView,
    updates: Result<Seq<ControllerAuthorizationUpdateView>, ErrorView>,
    devices: Result<Seq<UsbDeviceView>, ErrorView>,
) -> Result<DryRunReportView, ErrorView> {
    match (updates, devices) {
        (Err(error), _) => Err(error),
        (_, Err(error)) => Err(error),
        (Ok(updates), Ok(devices)) => if devices.len() > u32::MAX {
            Err(ErrorView::Protocol("too many USB devices to report"@))
        } else {
            Ok(
                DryRunReportView {
                    controller_updates: updates,
                    devices: Seq::new(
                        devices.len(),
                        |i: int| reported_device(policy, devices[i], i),
                    ),
                },
            )
        },
    }
}

/// What a dry run reports of the controllers and the devices that were found.
pub fn dry_run(
    policy: &Policy,
    updates: Result<Vec<ControllerAuthorizationUpdate>, Error>,
    devices: Result<Vec<UsbDevice>, Error>,
) -> (r: Result<DryRunReport, Error>)
    ensures
        (match r {
            Ok(report) => Ok(report@),
            Err(error) => Err(error@),
        }) == dry_run_outcome(policy@, updates_result(updates), devices_result(devices)),
{
    let controller_updates = match updates {
        Err(error) => {
            return Err(error);
        },
        Ok(updates) => updates,
    };
    let found = match devices {
        Err(error) => {
            return Err(error);
        },
        Ok(devices) => devices,
    };
    let ghost all = found.deep_view();
    if found.len() > u32::MAX as usize {
        return Err(Error::Protocol("too many USB devices to report".to_owned()));
    }
    let mut states: Vec<DeviceState> = Vec::new();
    for i in 0..found.len()
        invariant
            all == found.deep_view(),
            found@.len() <= u32::MAX,
            states@.len() == i,
            forall|j: int|
                0 <= j < i ==> (#[trigger] states@[j])@ == reported_device(policy@, all[j], j),
    {
        assert(all[i as int] == found@[i as int]@);
        let mut device = found[i].clone();
        device.id = i as u32 + 1;
        let decision = policy.decide(&device);
        states.push(DeviceState::new(device, decision));
    }
    assert(states.deep_view() =~= Seq::new(
        all.len(),
        |i: int| reported_device(policy@, all[i], i),
    ));
    Ok(DryRunReport { controller_updates, devices: states })
}

} // verus!
