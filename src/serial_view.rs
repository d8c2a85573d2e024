//! The state of one terminal view: the port it shows, the speed it asks
//! for, its received text and the interpreter that colours it, beside a
//! handle on the shared registry.

use crate::ansi_formatter::{AnsiFormatter, StyledText, ansi_blocks, colors_after, styled};
use crate::colors::Color;
use crate::history::{bounded, LineHistory, HISTORY_MAX_LINES};
use crate::service::{
    connect_post, disconnect_post, names_of, PortController, Registered, SerialService,
};
use crate::types::BaudRate;
use vstd::prelude::*;

verus! {

/// One view, with `S` the handle through which it reaches the registry.
pub struct SerialView<S> {
    serial_service: S,
    port_name: String,
    baud_rate: BaudRate,
    history: LineHistory,
    formatter: AnsiFormatter,
    is_autoscroll_enabled: bool,
}

impl<S> SerialView<S> {
    pub closed spec fn port_name_spec(&self) -> Seq<char> {
        self.port_name@
    }

    pub closed spec fn baud_rate_spec(&self) -> BaudRate {
        self.baud_rate
    }

    pub closed spec fn service_spec(&self) -> S {
        self.serial_service
    }

    /// The received text kept.
    pub closed spec fn received_spec(&self) -> Seq<char> {
        self.history@
    }

    /// The colours the interpreter carries.
    pub closed spec fn colors_spec(&self) -> (Option<Color>, Option<Color>) {
        self.formatter@
    }

    pub closed spec fn autoscroll_spec(&self) -> bool {
        self.is_autoscroll_enabled
    }

    pub closed spec fn wf(&self) -> bool {
        self.history.wf()
    }

    /// A view of `port_name` at the default speed, with no text, no carried
    /// colours, and scrolling that follows new text.
    pub fn new(port_name: String, serial_service: S) -> (r: Self)
        ensures
            r.wf(),
            r.port_name_spec() == port_name@,
            r.baud_rate_spec() == BaudRate::BaudRate115200,
            r.service_spec() == serial_service,
            r.received_spec() == Seq::<char>::empty(),
            r.colors_spec() == (None::<Color>, None::<Color>),
            r.autoscroll_spec(),
    {
        SerialView {
            serial_service,
            port_name,
            baud_rate: BaudRate::default(),
            history: LineHistory::new(),
            formatter: AnsiFormatter::default(),
            is_autoscroll_enabled: true,
        }
    }

    /// The name of the port the view shows.
    pub fn get_port_name(&self) -> (r: String)
        ensures
            r@ == self.port_name_spec(),
    {
        self.port_name.clone()
    }

    /// Shows another port.
    pub fn set_port_name(&mut self, port_name: String)
        ensures
            final(self).port_name_spec() == port_name@,
            final(self).baud_rate_spec() == old(self).baud_rate_spec(),
            final(self).service_spec() == old(self).service_spec(),
            final(self).received_spec() == old(self).received_spec(),
            final(self).colors_spec() == old(self).colors_spec(),
            final(self).wf() == old(self).wf(),
    {
        self.port_name = port_name;
    }

    /// The speed the view asks for.
    pub fn baud_rate(&self) -> (r: BaudRate)
        ensures
            r == self.baud_rate_spec(),
    {
        self.baud_rate
    }

    /// Asks for another speed.
    pub fn set_baud_rate(&mut self, baud_rate: BaudRate)
        ensures
            final(self).baud_rate_spec() == baud_rate,
            final(self).port_name_spec() == old(self).port_name_spec(),
            final(self).service_spec() == old(self).service_spec(),
            final(self).received_spec() == old(self).received_spec(),
            final(self).colors_spec() == old(self).colors_spec(),
            final(self).wf() == old(self).wf(),
    {
        self.baud_rate = baud_rate;
    }

    /// The handle on the registry.
    pub fn serial_service(&self) -> (r: &S)
        ensures
            *r == self.service_spec(),
    {
        &self.serial_service
    }

    /// Whether scrolling follows new text.
    pub fn is_autoscroll_enabled(&self) -> (r: bool)
        ensures
            r == self.autoscroll_spec(),
    {
        self.is_autoscroll_enabled
    }

    /// The received text kept.
    pub fn received_text(&self) -> (r: &String)
        ensures
            r@ == self.received_spec(),
    {
        self.history.text()
    }

    /// Adds text received from the port to the history, which then keeps at
    /// most `HISTORY_MAX_LINES` complete lines.
    pub fn receive(&mut self, text: &str)
        requires
            old(self).wf(),
            text@.len() <= usize::MAX - HISTORY_MAX_LINES,
        ensures
            final(self).wf(),
            final(self).received_spec() == bounded(old(self).received_spec() + text@),
            final(self).port_name_spec() == old(self).port_name_spec(),
            final(self).baud_rate_spec() == old(self).baud_rate_spec(),
            final(self).colors_spec() == old(self).colors_spec(),
    {
        self.history.append(text);
    }

    /// Styles one line of the history for display, carrying colours on to
    /// the next line.
    pub fn style_line(&mut self, line: &String) -> (r: Vec<StyledText>)
        ensures
            r@ == styled(old(self).colors_spec(), ansi_blocks(line@)),
            final(self).colors_spec() == colors_after(old(self).colors_spec(), ansi_blocks(line@)),
            final(self).received_spec() == old(self).received_spec(),
            final(self).wf() == old(self).wf(),
    {
        self.formatter.to_rich_text(line)
    }

    /// Forgets the carried colours, as at the end of each redraw.
    pub fn reset_style(&mut self)
        ensures
            final(self).colors_spec() == (None::<Color>, None::<Color>),
            final(self).received_spec() == old(self).received_spec(),
            final(self).wf() == old(self).wf(),
    {
        self.formatter.reset();
    }

    /// Empties the history and forgets the carried colours.
    pub fn clear(&mut self)
        ensures
            final(self).wf(),
            final(self).received_spec() == Seq::<char>::empty(),
            final(self).colors_spec() == (None::<Color>, None::<Color>),
            final(self).port_name_spec() == old(self).port_name_spec(),
            final(self).baud_rate_spec() == old(self).baud_rate_spec(),
    {
        self.formatter.reset();
        self.history.clear();
    }
}

/// Disconnects one port, stopping its worker, and connects another (or the
/// same one again, with a new worker) at the given speed, as a view does
/// when its port or speed changes. The stopped worker is handed back.
pub fn disconnect_and_connect<C: PortController>(
    service: &mut SerialService<C>,
    disconnect_port_name: &str,
    connect_port_name: &str,
    connect_baud_rate: BaudRate,
) -> (r: Option<C>)
    requires
        old(service).wf(),
    ensures
        final(service).wf(),
        r is Some <==> old(service).names().contains(disconnect_port_name@),
        r matches Some(c) ==> c.is_stopped(),
        final(service).names().contains(connect_port_name@),
        disconnect_port_name@ != connect_port_name@ ==> !final(service).names().contains(
            disconnect_port_name@,
        ),
        disconnect_port_name@ == connect_port_name@ ==> final(service)@.last().0
            == connect_port_name@ && final(service)@.last().1 == connect_baud_rate,
        exists|between: Seq<Registered<C>>|
            disconnect_post(old(service)@, between, disconnect_port_name@) && connect_post(
                between,
                final(service)@,
                connect_port_name@,
                connect_baud_rate,
            ),
{
    let ghost before = service@;
    let stopped = service.disconnect(disconnect_port_name);
    let ghost between = service@;
    let _ = service.connect(connect_port_name, connect_baud_rate);
    proof {
        assert(disconnect_post(before, between, disconnect_port_name@));
        if !names_of(between).contains(connect_port_name@) {
            assert(names_of(service@).drop_last() =~= names_of(between));
            if disconnect_port_name@ != connect_port_name@ {
                assert forall|k: int| 0 <= k < names_of(service@).len() implies names_of(
                    service@,
                )[k] != disconnect_port_name@ by {
                    if k < names_of(between).len() {
                        assert(names_of(service@)[k] == names_of(between)[k]);
                    }
                }
            }
        }
    }
    stopped
}

} // verus!
