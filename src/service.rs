//! The connection registry: at most one worker per port name, with an
//! idempotent connect, a disconnect that waits for the worker to stop, and
//! the list of ports that are free to choose.

use crate::types::BaudRate;
use vstd::prelude::*;

verus! {

/// The handle on one port's background worker, as the registry needs it.
pub trait PortController: Sized {
    /// Whether the worker has been told to stop and has stopped.
    spec fn is_stopped(&self) -> bool;

    /// Starts a worker that opens `port_name` at `baud_rate` in the
    /// background, retrying until it succeeds or is told to stop. Starting
    /// cannot fail: a device that cannot be opened shows only as a worker
    /// whose device is not open.
    fn activate(port_name: &str, baud_rate: BaudRate) -> Self;

    /// Tells the worker to stop and waits until it has.
    fn deactivate(&mut self)
        ensures
            final(self).is_stopped(),
    ;

    /// Whether the worker has the device open right now.
    fn is_physical_connected(&self) -> bool;
}

/// One registered port.
struct Connection<C> {
    port_name: String,
    baud_rate: BaudRate,
    controller: C,
}

/// The registered ports, in the order they were connected.
pub struct SerialService<C> {
    controllers: Vec<Connection<C>>,
}

/// A registered port: its name, its speed and its worker.
pub type Registered<C> = (Seq<char>, BaudRate, C);

impl<C> View for SerialService<C> {
    type V = Seq<Registered<C>>;

    closed spec fn view(&self) -> Seq<Registered<C>> {
        self.controllers@.map_values(|e: Connection<C>| (e.port_name@, e.baud_rate, e.controller))
    }
}

/// The names of the registered ports.
pub open spec fn names_of<C>(entries: Seq<Registered<C>>) -> Seq<Seq<char>> {
    entries.map_values(|e: Registered<C>| e.0)
}

/// What `connect(port, baud)` leaves: nothing changes for a registered
/// name; otherwise the port is registered last, with its speed and a new
/// worker, and every other entry stays as it was.
pub open spec fn connect_post<C>(
    before: Seq<Registered<C>>,
    after: Seq<Registered<C>>,
    port: Seq<char>,
    baud: BaudRate,
) -> bool {
    if names_of(before).contains(port) {
        after == before
    } else {
        after.len() == before.len() + 1 && after.drop_last() == before && after.last().0 == port
            && after.last().1 == baud
    }
}

/// Why a port could not be connected. The registry opens devices in the
/// background, so a device that is missing or busy is no error here: it
/// shows as a registered port whose device is not open.
#[derive(Clone, Copy, Debug, PartialEq, Eq, Structural)]
pub enum ConnectError {
    /// The device could not be opened.
    OpenFailed,
}

/// What `disconnect(port)` leaves: the port's entry is gone, the others stay
/// in order; nothing changes for a name that is not registered.
pub open spec fn disconnect_post<C>(
    before: Seq<Registered<C>>,
    after: Seq<Registered<C>>,
    port: Seq<char>,
) -> bool {
    if names_of(before).contains(port) {
        exists|i: int| 0 <= i < before.len() && before[i].0 == port && after == before.remove(i)
    } else {
        after == before
    }
}

/// Whether a visible port is offered: the caller's own port always is, any
/// other only while no worker is registered under its name.
pub open spec fn offered(names: Seq<Seq<char>>, own: Option<Seq<char>>, port: Seq<char>) -> bool {
    own == Some(port) || !names.contains(port)
}

/// The view of an optional name.
pub open spec fn name_view(name: Option<&str>) -> Option<Seq<char>> {
    match name {
        Some(s) => Some(s@),
        None => None,
    }
}

/// The visible ports that are offered, in the order they are visible.
pub open spec fn offered_ports(
    names: Seq<Seq<char>>,
    own: Option<Seq<char>>,
    visible: Seq<String>,
) -> Seq<String> {
    visible.filter(|p: String| offered(names, own, p@))
}

impl<C: PortController> SerialService<C> {
    /// The names of the registered ports.
    pub open spec fn names(&self) -> Seq<Seq<char>> {
        names_of(self@)
    }

    /// No name is registered twice.
    pub open spec fn wf(&self) -> bool {
        self.names().no_duplicates()
    }

    /// A registry with no port.
    pub fn new() -> (r: Self)
        ensures
            r@ == Seq::<Registered<C>>::empty(),
            r.wf(),
    {
        let r = SerialService { controllers: Vec::new() };
        assert(r.names() =~= Seq::<Seq<char>>::empty());
        r
    }

    /// The position of a port in the registry.
    fn find(&self, port_name: &str) -> (r: Option<usize>)
        ensures
            r is Some <==> self.names().contains(port_name@),
            r matches Some(i) ==> i < self@.len() && self@[i as int].0 == port_name@,
    {
        let key = port_name.to_owned();
        let mut i: usize = 0;
        while i < self.controllers.len()
            invariant
                i <= self.controllers@.len(),
                key@ == port_name@,
                forall|j: int| 0 <= j < i ==> self.names()[j] != port_name@,
            decreases self.controllers@.len() - i,
        {
            if self.controllers[i].port_name == key {
                assert(self.names()[i as int] == port_name@);
                return Some(i);
            }
            i = i + 1;
        }
        None
    }

    /// Registers `port_name` and starts its worker, unless it is registered
    /// already: then nothing happens. Either way the port is registered
    /// afterwards and the result is a success.
    pub fn connect(&mut self, port_name: &str, baud_rate: BaudRate) -> (r: Result<(), ConnectError>)
        requires
            old(self).wf(),
        ensures
            r is Ok,
            final(self).wf(),
            final(self).names().contains(port_name@),
            connect_post(old(self)@, final(self)@, port_name@, baud_rate),
    {
        if let Some(i) = self.find(port_name) {
            assert(self.names()[i as int] == port_name@);
            return Ok(());
        }
        let controller = C::activate(port_name, baud_rate);
        let ghost before = self@;
        self.controllers.push(Connection { port_name: port_name.to_owned(), baud_rate, controller });
        assert(self@.drop_last() =~= before);
        assert(self.names() =~= names_of(before).push(port_name@));
        assert(self.names()[before.len() as int] == port_name@);
        Ok(())
    }

    /// Removes `port_name` and stops its worker, waiting until it has
    /// stopped; the stopped worker is handed back. Does nothing for a name
    /// that is not registered.
    pub fn disconnect(&mut self, port_name: &str) -> (r: Option<C>)
        requires
            old(self).wf(),
        ensures
            final(self).wf(),
            disconnect_post(old(self)@, final(self)@, port_name@),
            !final(self).names().contains(port_name@),
            r is Some <==> old(self).names().contains(port_name@),
            r matches Some(c) ==> c.is_stopped(),
    {
        match self.find(port_name) {
            Some(i) => {
                let ghost before = self@;
                let Connection { port_name: _, baud_rate: _, controller: mut controller } =
                    self.controllers.remove(i);
                assert(self@ =~= before.remove(i as int));
                assert(self.names() =~= names_of(before).remove(i as int));
                proof {
                    lemma_disconnect_removes(before, self@, port_name@);
                }
                controller.deactivate();
                Some(controller)
            },
            None => None,
        }
    }

    /// Whether a worker is registered under `port_name`, whatever the state
    /// of its device.
    pub fn is_connected(&self, port_name: &str) -> (r: bool)
        ensures
            r == self.names().contains(port_name@),
    {
        self.find(port_name).is_some()
    }

    /// Whether a worker is registered under `port_name` and has its device
    /// open right now; never for a name that is not registered.
    pub fn is_physically_connected(&self, port_name: &str) -> (r: bool)
        ensures
            r ==> self.names().contains(port_name@),
    {
        match self.find(port_name) {
            Some(i) => self.controllers[i].controller.is_physical_connected(),
            None => false,
        }
    }

    /// The worker registered under `port_name`.
    pub fn get_controller(&self, port_name: &str) -> (r: Option<&C>)
        requires
            self.wf(),
        ensures
            r is Some <==> self.names().contains(port_name@),
            r matches Some(c) ==> forall|i: int|
                0 <= i < self@.len() && #[trigger] self@[i].0 == port_name@ ==> *c == self@[i].2,
    {
        match self.find(port_name) {
            Some(i) => {
                assert(forall|j: int|
                    0 <= j < self@.len() && #[trigger] self@[j].0 == port_name@ ==> self.names()[j]
                        == self.names()[i as int]);
                Some(&self.controllers[i].controller)
            },
            None => None,
        }
    }

    /// The ports among `all_ports` (the host's visible ports) that a view
    /// may choose: those with no worker registered, and `self_port_name`,
    /// the view's own port, whether registered or not.
    pub fn get_available_ports(&self, all_ports: Vec<String>, self_port_name: Option<&str>) -> (r:
        Vec<String>)
        ensures
            r@ == offered_ports(self.names(), name_view(self_port_name), all_ports@),
    {
        let own: Option<String> = match self_port_name {
            Some(s) => Some(s.to_owned()),
            None => None,
        };
        let ghost pred = |p: String| offered(self.names(), name_view(self_port_name), p@);
        let mut ports: Vec<String> = Vec::new();
        let mut i: usize = 0;
        while i < all_ports.len()
            invariant
                i <= all_ports@.len(),
                name_view(self_port_name) == match own {
                    Some(s) => Some(s@),
                    None => None::<Seq<char>>,
                },
                pred == (|p: String| offered(self.names(), name_view(self_port_name), p@)),
                ports@ == all_ports@.take(i as int).filter(pred),
            decreases all_ports@.len() - i,
        {
            reveal(Seq::filter);
            assert(all_ports@.take(i + 1).drop_last() =~= all_ports@.take(i as int));
            let port = &all_ports[i];
            let is_own = match &own {
                Some(s) => *s == *port,
                None => false,
            };
            if is_own || !self.is_connected(port.as_str()) {
                ports.push(port.clone());
            }
            i = i + 1;
        }
        assert(all_ports@.take(i as int) =~= all_ports@);
        ports
    }
}

/// Connecting a port that is not registered registers it, and connecting
/// it again, at any speed, changes nothing: exactly one worker stays
/// registered under the name, with the first speed.
pub proof fn lemma_connect_is_idempotent<C>(
    before: Seq<Registered<C>>,
    once: Seq<Registered<C>>,
    twice: Seq<Registered<C>>,
    port: Seq<char>,
    baud: BaudRate,
    second_baud: BaudRate,
)
    requires
        names_of(before).no_duplicates(),
        !names_of(before).contains(port),
        connect_post(before, once, port, baud),
        connect_post(once, twice, port, second_baud),
    ensures
        names_of(once).contains(port),
        twice == once,
        forall|i: int, j: int|
            0 <= i < twice.len() && 0 <= j < twice.len() && twice[i].0 == port && twice[j].0
                == port ==> i == j,
        forall|i: int| 0 <= i < twice.len() && twice[i].0 == port ==> twice[i].1 == baud,
{
    let n = before.len() as int;
    assert(once[n].0 == port);
    assert(names_of(once)[n] == port);
    assert forall|i: int| 0 <= i < twice.len() && twice[i].0 == port implies i == n by {
        if i < n {
            assert(once.drop_last()[i] == before[i]);
            assert(names_of(before)[i] == port);
        }
    }
}

/// After a disconnect the port is no longer registered, and a second
/// disconnect changes nothing.
pub proof fn lemma_disconnect_twice<C>(
    before: Seq<Registered<C>>,
    once: Seq<Registered<C>>,
    twice: Seq<Registered<C>>,
    port: Seq<char>,
)
    requires
        names_of(before).no_duplicates(),
        disconnect_post(before, once, port),
        disconnect_post(once, twice, port),
    ensures
        !names_of(once).contains(port),
        twice == once,
{
    lemma_disconnect_removes(before, once, port);
}

proof fn lemma_disconnect_removes<C>(
    before: Seq<Registered<C>>,
    after: Seq<Registered<C>>,
    port: Seq<char>,
)
    requires
        names_of(before).no_duplicates(),
        disconnect_post(before, after, port),
    ensures
        !names_of(after).contains(port),
{
    if names_of(before).contains(port) {
        let i = choose|i: int| 0 <= i < before.len() && before[i].0 == port && after == before.remove(i);
        assert(names_of(before)[i] == port);
        assert forall|k: int| 0 <= k < after.len() implies names_of(after)[k] != port by {
            if k < i {
                assert(after[k] == before[k]);
                assert(names_of(before)[k] == port ==> k == i);
            } else {
                assert(after[k] == before[k + 1]);
                assert(names_of(before)[k + 1] == port ==> k + 1 == i);
            }
        }
    }
}

/// The offered ports never include a registered port other than the
/// caller's own, and include the caller's own port whenever it is visible,
/// registered or not.
pub proof fn lemma_offered_ports(
    names: Seq<Seq<char>>,
    own: Option<Seq<char>>,
    visible: Seq<String>,
)
    ensures
        forall|k: int|
            0 <= k < offered_ports(names, own, visible).len() ==> (own == Some(
                #[trigger] offered_ports(names, own, visible)[k]@,
            ) || !names.contains(offered_ports(names, own, visible)[k]@)),
        forall|k: int|
            0 <= k < visible.len() && own == Some(#[trigger] visible[k]@) ==> offered_ports(
                names,
                own,
                visible,
            ).contains(visible[k]),
{
    let pred = |p: String| offered(names, own, p@);
    assert forall|k: int| 0 <= k < offered_ports(names, own, visible).len() implies (own == Some(
        #[trigger] offered_ports(names, own, visible)[k]@,
    ) || !names.contains(offered_ports(names, own, visible)[k]@)) by {
        visible.lemma_filter_pred(pred, k);
    }
    assert forall|k: int|
        0 <= k < visible.len() && own == Some(#[trigger] visible[k]@) implies offered_ports(
        names,
        own,
        visible,
    ).contains(visible[k]) by {
        visible.lemma_filter_contains(pred, k);
    }
}

} // verus!
