//! What a probe reports, and how it is shown.
use vstd::prelude::*;
use crate::boards::{ProbeKind, ProbeModel};
use crate::fields::Fields;
use crate::probe::avr::{avr_page, print_avr_info};
use crate::probe::daplink::{daplink_page, print_daplink_info, print_pyocd_info, pyocd_page};
use crate::probe::dfu::{dfu_page, DfuInfo, DfuView};
use crate::probe::esp::{esp_page, EspInfo, EspView};
use crate::probe::ftdi::{ftdi_page, print_ftdi_info};
use crate::probe::pico::{pico_page, print_pico_info};
use crate::probe::stm32flash::{print_stm32_info, stm32flash_page};
use crate::probe::{Outcome, OutcomeView};
use crate::stlink::controller::{controller_page, ControllerView, StlinkControllerInfo};
use crate::stm32::decode::{
    blank_report, print_stlink_target_info, target_page, ReportView, TargetReport,
};

verus! {

/// The report of a probe.
pub enum ProbeReport {
    Esp(EspInfo),
    /// Rows by their names.
    Fields(Fields),
    Dfu(DfuInfo),
    Controller(StlinkControllerInfo),
    Target(TargetReport),
}

pub enum ProbeReportView {
    Esp(EspView),
    Fields(Map<Seq<char>, Seq<char>>),
    Dfu(DfuView),
    Controller(ControllerView),
    Target(ReportView),
}

impl View for ProbeReport {
    type V = ProbeReportView;

    open spec fn view(&self) -> ProbeReportView {
        match *self {
            ProbeReport::Esp(e) => ProbeReportView::Esp(e@),
            ProbeReport::Fields(f) => ProbeReportView::Fields(f@),
            ProbeReport::Dfu(d) => ProbeReportView::Dfu(d@),
            ProbeReport::Controller(c) => ProbeReportView::Controller(c@),
            ProbeReport::Target(t) => ProbeReportView::Target(t@),
        }
    }
}

/// A report that says nothing.
pub open spec fn says_nothing(r: ProbeReportView) -> bool {
    match r {
        ProbeReportView::Esp(e) => e.chip_type is None && e.chip_revision is None
            && e.crystal_frequency is None && e.flash_size is None && e.features is None
            && e.mac_address is None && e.mac is None,
        ProbeReportView::Fields(m) => m == Map::<Seq<char>, Seq<char>>::empty(),
        ProbeReportView::Dfu(d) => d.vidpid is None,
        ProbeReportView::Controller(c) => c.layer is None && c.generation is None
            && c.usb_identity is None,
        ProbeReportView::Target(t) => t == blank_report(),
    }
}

/// How the rows of a probe are shown. The tools and descriptors that report rows by
/// name each have a page of their own.
pub open spec fn report_page(p: ProbeModel, r: ProbeReportView, board: Seq<char>) -> Seq<Seq<char>> {
    match r {
        ProbeReportView::Esp(e) => esp_page(e),
        ProbeReportView::Dfu(d) => dfu_page(d, board),
        ProbeReportView::Controller(c) => controller_page(c),
        ProbeReportView::Target(t) => target_page(t, board),
        ProbeReportView::Fields(m) => match p {
            ProbeModel::Avrdude { .. } => avr_page(m, board),
            ProbeModel::Stm32Flash => stm32flash_page(m, board),
            ProbeModel::Ftdi => ftdi_page(m, board),
            ProbeModel::Picotool => pico_page(m, board),
            ProbeModel::Daplink => daplink_page(m, board),
            _ => pyocd_page(m),
        },
    }
}

/// What came of a probe: an error stays one, a report that says nothing counts as
/// empty, and any other is shown.
pub fn probe_outcome(p: &ProbeKind, result: Result<ProbeReport, String>, board_name: &str) -> (o:
    Outcome)
    ensures
        o@ == (match result {
            Err(why) => OutcomeView::Failed(why@),
            Ok(r) => if says_nothing(r@) {
                OutcomeView::Empty
            } else {
                OutcomeView::Report(report_page(p@, r@, board_name@))
            },
        }),
{
    let report = match result {
        Err(why) => {
            return Outcome::Failed(why);
        },
        Ok(report) => report,
    };
    match &report {
        ProbeReport::Esp(e) => if e.is_empty() {
            Outcome::Empty
        } else {
            Outcome::Report(e.print())
        },
        ProbeReport::Dfu(d) => if d.is_empty() {
            Outcome::Empty
        } else {
            Outcome::Report(d.print(board_name))
        },
        ProbeReport::Controller(c) => if c.is_empty() {
            Outcome::Empty
        } else {
            Outcome::Report(c.print())
        },
        ProbeReport::Target(t) => if t.is_empty() {
            Outcome::Empty
        } else {
            Outcome::Report(print_stlink_target_info(t, board_name))
        },
        ProbeReport::Fields(f) => if f.is_empty() {
            Outcome::Empty
        } else {
            Outcome::Report(
                match p {
                    ProbeKind::Avrdude { .. } => print_avr_info(f, board_name),
                    ProbeKind::Stm32Flash => print_stm32_info(f, board_name),
                    ProbeKind::Ftdi => print_ftdi_info(f, board_name),
                    ProbeKind::Picotool => print_pico_info(f, board_name),
                    ProbeKind::Daplink => print_daplink_info(f, board_name),
                    _ => print_pyocd_info(f),
                },
            )
        },
    }
}

/// A report with a value in it says something, whatever the value; one without any
/// says nothing.
pub proof fn law_a_value_says_something(
    e: EspView,
    m: Map<Seq<char>, Seq<char>>,
    name: Seq<char>,
    value: Seq<char>,
)
    ensures
        says_nothing(ProbeReportView::Esp(e)) <==> e.chip_type is None && e.chip_revision is None
            && e.crystal_frequency is None && e.flash_size is None && e.features is None
            && e.mac_address is None && e.mac is None,
        !says_nothing(ProbeReportView::Fields(m.insert(name, value))),
        says_nothing(ProbeReportView::Fields(Map::empty())),
        forall|t: ReportView| #[trigger]
            says_nothing(ProbeReportView::Target(t)) <==> t == blank_report(),
        forall|d: DfuView| #[trigger]
            says_nothing(ProbeReportView::Dfu(d)) <==> d.vidpid is None,
        forall|c: ControllerView| #[trigger]
            says_nothing(ProbeReportView::Controller(c)) <==> c.layer is None && c.generation
                is None && c.usb_identity is None,
{
    let long = m.insert(name, value);
    assert(long.dom().contains(name));
    assert(!Map::<Seq<char>, Seq<char>>::empty().dom().contains(name));
}

/// Each probe that reports rows by name has a page of its own, and a report is shown in
/// the way of what was reported.
pub proof fn law_every_report_has_its_page(
    p: ProbeModel,
    m: Map<Seq<char>, Seq<char>>,
    board: Seq<char>,
    t: ReportView,
    c: ControllerView,
)
    ensures
        ({
            let page = report_page(p, ProbeReportView::Fields(m), board);
            &&& p is Avrdude ==> page == avr_page(m, board)
            &&& p is Stm32Flash ==> page == stm32flash_page(m, board)
            &&& p is Ftdi ==> page == ftdi_page(m, board)
            &&& p is Picotool ==> page == pico_page(m, board)
            &&& p is Daplink ==> page == daplink_page(m, board)
            &&& p is Pyocd ==> page == pyocd_page(m)
            &&& report_page(p, ProbeReportView::Target(t), board) == target_page(t, board)
            &&& report_page(p, ProbeReportView::Controller(c), board) == controller_page(c)
        }),
{
}

} // verus!
