//! Services of a compose stack and whether they run.

use crate::text::texts;
use vstd::prelude::*;

verus! {

/// Whether a service runs.
#[derive(Clone, Copy, Debug, PartialEq, Eq, Structural)]
pub enum Status {
    Up,
    Down,
}

/// A service of a compose stack with its status.
#[derive(Debug, PartialEq)]
pub struct Service {
    pub name: String,
    pub status: Status,
}

/// What a service holds, as mathematical values.
pub struct ServiceView {
    pub name: Seq<char>,
    pub status: Status,
}

impl View for Service {
    type V = ServiceView;

    open spec fn view(&self) -> ServiceView {
        ServiceView { name: self.name@, status: self.status }
    }
}

impl Clone for Service {
    fn clone(&self) -> (r: Self)
        ensures
            r@ == self@,
    {
        Service { name: self.name.clone(), status: self.status }
    }
}

/// The views of a list of services, in order.
pub open spec fn service_views(services: Seq<Service>) -> Seq<ServiceView> {
    Seq::new(services.len(), |i: int| services[i]@)
}

/// The text that `str::to_lowercase` makes of a text.
pub uninterp spec fn lowercase_of(text: Seq<char>) -> Seq<char>;

/// Calls `str::to_lowercase`. Nothing is claimed of the result but that it
/// is the text which that call makes of the argument.
#[verifier::external_body]
fn to_lowercase(text: &str) -> (r: String)
    ensures
        r@ == lowercase_of(text@),
{
    text.to_lowercase()
}

/// The status that a state in lower case stands for: up for `running`, down
/// for anything else.
pub open spec fn status_of_lowered(lowered: Seq<char>) -> Status {
    if lowered == "running"@ {
        Status::Up
    } else {
        Status::Down
    }
}

impl Status {
    /// The status as shown in a listing, four characters wide.
    pub open spec fn shown(self) -> Seq<char> {
        match self {
            Status::Up => "up  "@,
            Status::Down => "down"@,
        }
    }

    /// The status as shown in a listing, four characters wide.
    pub fn label(&self) -> (r: &'static str)
        ensures
            r@ == self.shown(),
    {
        match self {
            Status::Up => "up  ",
            Status::Down => "down",
        }
    }

    /// The status that a state already in lower case stands for.
    pub fn from_lowered(lowered: &str) -> (r: Status)
        ensures
            r == status_of_lowered(lowered@),
    {
        if lowered.to_owned() == "running".to_owned() {
            Status::Up
        } else {
            Status::Down
        }
    }

    /// The status that a state reported by the orchestration tool stands for,
    /// whatever the case of its letters.
    pub fn from_state(state: &str) -> (r: Status)
        ensures
            r == status_of_lowered(lowercase_of(state@)),
    {
        let lowered = to_lowercase(state);
        Status::from_lowered(lowered.as_str())
    }
}

impl Service {
    /// The service called `name` in the state that the orchestration tool
    /// reported for it.
    pub fn from_report(name: String, state: &str) -> (r: Service)
        ensures
            r@ == (ServiceView { name: name@, status: status_of_lowered(lowercase_of(state@)) }),
    {
        Service { name, status: Status::from_state(state) }
    }
}

/// The status reported for the service called `name`: that of the last
/// report by that name, and down where there is none.
pub open spec fn reported(running: Seq<ServiceView>, name: Seq<char>) -> Status
    decreases running.len(),
{
    if running.len() == 0 {
        Status::Down
    } else if running.last().name == name {
        running.last().status
    } else {
        reported(running.drop_last(), name)
    }
}

/// The declared services, each once and in the declared order, with the
/// status reported for it.
pub open spec fn reconciled(declared: Seq<Seq<char>>, running: Seq<ServiceView>) -> Seq<ServiceView> {
    Seq::new(declared.len(), |i: int| ServiceView { name: declared[i], status: reported(running, declared[i]) })
}

/// Some service of the list is down.
pub open spec fn any_down(services: Seq<ServiceView>) -> bool {
    exists|i: int| 0 <= i < services.len() && (#[trigger] services[i]).status == Status::Down
}

/// The status reported for the service called `name`.
pub fn reported_status(running: &Vec<Service>, name: &String) -> (r: Status)
    ensures
        r == reported(service_views(running@), name@),
{
    let ghost views = service_views(running@);
    let mut i: usize = running.len();
    assert(views.take(i as int) =~= views);
    while i > 0
        invariant
            i <= running.len(),
            views == service_views(running@),
            reported(views, name@) == reported(views.take(i as int), name@),
        decreases i,
    {
        proof {
            assert(views.take(i as int).drop_last() =~= views.take(i as int - 1));
            assert(views.take(i as int).last() == running@[i as int - 1]@);
        }
        i -= 1;
        if running[i].name == *name {
            return running[i].status;
        }
    }
    Status::Down
}

/// Lays the reported states over the declared services: every declared
/// service appears once, in the declared order, with the status reported for
/// it, and down where nothing was reported. Reports of services that are not
/// declared are dropped.
pub fn service_statuses(declared: &Vec<String>, running: &Vec<Service>) -> (r: Vec<Service>)
    ensures
        service_views(r@) == reconciled(texts(declared@), service_views(running@)),
{
    let mut services: Vec<Service> = Vec::new();
    let mut i: usize = 0;
    while i < declared.len()
        invariant
            i <= declared.len(),
            services.len() == i,
            forall|j: int|
                0 <= j < i ==> (#[trigger] services@[j])@ == (ServiceView {
                    name: declared@[j]@,
                    status: reported(service_views(running@), declared@[j]@),
                }),
        decreases declared.len() - i,
    {
        let status = reported_status(running, &declared[i]);
        services.push(Service { name: declared[i].clone(), status });
        i += 1;
    }
    assert(service_views(services@) =~= reconciled(texts(declared@), service_views(running@)));
    services
}

/// Whether some service of the list is down.
pub fn has_down(services: &Vec<Service>) -> (r: bool)
    ensures
        r == any_down(service_views(services@)),
{
    let mut i: usize = 0;
    while i < services.len()
        invariant
            i <= services.len(),
            forall|j: int| 0 <= j < i ==> (#[trigger] service_views(services@)[j]).status != Status::Down,
        decreases services.len() - i,
    {
        match services[i].status {
            Status::Down => {
                assert(service_views(services@)[i as int].status == Status::Down);
                return true;
            },
            Status::Up => {},
        }
        i += 1;
    }
    false
}

} // verus!
