//! The lifecycle operations, as plans: each operation says which commands
//! are to be run, in which order, and the caller runs them.

use crate::cmd::{command_views, planned, run_from_list, CommandView, CommandWrapper};
use crate::config::app::{project_views, AppView};
use crate::config::app_config::AppConfigView;
use crate::config::config::{Config, ConfigView};
use crate::config::project::{Project, ProjectView};
use crate::docker::{
    compose, compose_command, network, network_command, volume, volume_command, ComposeCmd, ComposeCmdView,
    NetworkCmd, NetworkCmdView, VolumeCmd, VolumeCmdView,
};
use crate::selection::{first_match, is_flagged, option_text, Criterion, Parameters};
use crate::service::{any_down, has_down, reconciled, service_statuses, service_views, Service, ServiceView};
use crate::sorted_map::{first_key, SortedMap};
use crate::text::{clone_texts, texts};
use vstd::prelude::*;
use vstd::string::StringExecFns;

verus! {

/// What the container tool reported of one project's stack: the services
/// that it lists with their states, and the names of the declared services.
#[derive(Debug, PartialEq)]
pub struct StackReport {
    pub running: Vec<Service>,
    pub declared: Vec<String>,
}

/// Why an operation has nothing to plan.
#[derive(Clone, Copy, Debug, PartialEq, Eq)]
pub enum PlanError {
    /// The install hooks are never run on every project at once.
    NoProjects,
}

impl PlanError {
    /// The message shown for the error.
    pub fn message(&self) -> (r: &'static str)
        ensures
            r@ == "Cannot run install on all projects"@,
    {
        "Cannot run install on all projects"
    }
}

/// What is reported when an install hook cannot be run.
pub const INSTALL_FAILED: &'static str = "Could not run install command";

/// What is reported when a hook before the stack comes up cannot be run.
pub const BUILD_FAILED: &'static str = "Could not run build command";

/// What is reported when a hook after the stack came up cannot be run.
pub const AFTER_UP_FAILED: &'static str = "Could not run after up hooks";

/// The services of the project under `key` with their statuses: the
/// declared services with what was reported for each, and no service where
/// nothing was reported of the project.
pub open spec fn project_statuses(reports: Map<Seq<char>, StackReport>, key: Seq<char>) -> Seq<ServiceView> {
    if reports.dom().contains(key) {
        reconciled(texts(reports[key].declared@), service_views(reports[key].running@))
    } else {
        Seq::empty()
    }
}

/// The views of the statuses of a map, key by key.
pub open spec fn status_views(statuses: Map<Seq<char>, Vec<Service>>) -> Map<Seq<char>, Seq<ServiceView>> {
    statuses.map_values(|services: Vec<Service>| service_views(services@))
}

/// The commands that create the networks called `names`, in order.
pub open spec fn network_plan(names: Seq<Seq<char>>, cwd: Seq<char>) -> Seq<CommandView> {
    Seq::new(names.len(), |i: int| network_command(NetworkCmdView::Create(names[i]), cwd))
}

/// The commands that create the volumes called `names`, in order.
pub open spec fn volume_plan(names: Seq<Seq<char>>, cwd: Seq<char>) -> Seq<CommandView> {
    Seq::new(names.len(), |i: int| volume_command(VolumeCmdView::Create(names[i]), cwd))
}

/// What installing one project takes: the shared network, the project's
/// networks and volumes, then its install hooks in its directory.
pub open spec fn install_steps(
    shared_network: Seq<char>,
    project: ProjectView,
    cwd: Seq<char>,
    home: Seq<char>,
) -> Seq<CommandView> {
    seq![network_command(NetworkCmdView::Create(shared_network), cwd)] + network_plan(project.networks, cwd)
        + volume_plan(project.volumes, cwd) + planned(project.on_install, project.dir, INSTALL_FAILED@, home)
}

/// The install steps of the projects under `keys`, in the order of `keys`.
pub open spec fn install_plan(
    keys: Seq<Seq<char>>,
    projects: Map<Seq<char>, ProjectView>,
    shared_network: Seq<char>,
    cwd: Seq<char>,
    home: Seq<char>,
) -> Seq<CommandView>
    decreases keys.len(),
{
    if keys.len() == 0 {
        Seq::empty()
    } else {
        install_plan(keys.drop_last(), projects, shared_network, cwd, home) + install_steps(
            shared_network,
            projects[keys.last()],
            cwd,
            home,
        )
    }
}

/// What bringing up one project takes: its networks and volumes, its hooks
/// before the stack comes up, the stack, its hooks after.
pub open spec fn up_steps(project: ProjectView, cwd: Seq<char>, home: Seq<char>) -> Seq<CommandView> {
    network_plan(project.networks, cwd) + volume_plan(project.volumes, cwd) + planned(
        project.on_up,
        project.dir,
        BUILD_FAILED@,
        home,
    ) + seq![compose_command(ComposeCmdView::Up(Seq::empty(), project.compose_files), project.dir)] + planned(
        project.after_up,
        project.dir,
        AFTER_UP_FAILED@,
        home,
    )
}

/// The project under `key` has a declared service that does not run.
pub open spec fn is_down(statuses: Map<Seq<char>, Seq<ServiceView>>, key: Seq<char>) -> bool {
    statuses.dom().contains(key) && any_down(statuses[key])
}

/// The steps that bring up those projects under `keys` that are down, in
/// the order of `keys`.
pub open spec fn up_plan(
    keys: Seq<Seq<char>>,
    projects: Map<Seq<char>, ProjectView>,
    statuses: Map<Seq<char>, Seq<ServiceView>>,
    cwd: Seq<char>,
    home: Seq<char>,
) -> Seq<CommandView>
    decreases keys.len(),
{
    if keys.len() == 0 {
        Seq::empty()
    } else {
        let before = up_plan(keys.drop_last(), projects, statuses, cwd, home);
        if is_down(statuses, keys.last()) {
            before + up_steps(projects[keys.last()], cwd, home)
        } else {
            before
        }
    }
}

/// The command that brings down the stack of a project.
pub open spec fn down_step(project: ProjectView) -> CommandView {
    compose_command(ComposeCmdView::Down(project.compose_files), project.dir)
}

/// Appends the commands of `more` to `plan`.
fn append(plan: &mut Vec<CommandWrapper>, more: Vec<CommandWrapper>)
    ensures
        command_views(final(plan)@) == command_views(old(plan)@) + command_views(more@),
{
    let mut more = more;
    let ghost added = more@;
    plan.append(&mut more);
    assert(command_views(plan@) =~= command_views(old(plan)@) + command_views(added));
}

/// Appends the commands that create the networks and the volumes of
/// `project` to `plan`.
fn provide(plan: &mut Vec<CommandWrapper>, project: &Project, cwd: &str)
    ensures
        command_views(final(plan)@) == command_views(old(plan)@) + network_plan(project@.networks, cwd@)
            + volume_plan(project@.volumes, cwd@),
{
    let ghost start = command_views(plan@);
    let ghost networks = network_plan(project@.networks, cwd@);
    let ghost volumes = volume_plan(project@.volumes, cwd@);
    let mut i: usize = 0;
    assert(command_views(plan@) =~= start + networks.take(0));
    while i < project.networks.len()
        invariant
            i <= project.networks.len(),
            networks == network_plan(project@.networks, cwd@),
            command_views(plan@) == start + networks.take(i as int),
        decreases project.networks.len() - i,
    {
        let ghost before = command_views(plan@);
        let command = network(NetworkCmd::Create(project.networks[i].clone()), cwd);
        plan.push(command);
        proof {
            assert(command_views(plan@) =~= before.push(command@));
            assert(networks.take(i + 1) =~= networks.take(i as int).push(networks[i as int]));
            assert(command_views(plan@) =~= start + networks.take(i + 1));
        }
        i += 1;
    }
    assert(networks.take(i as int) =~= networks);
    let mut j: usize = 0;
    assert(command_views(plan@) =~= start + networks + volumes.take(0));
    while j < project.volumes.len()
        invariant
            j <= project.volumes.len(),
            volumes == volume_plan(project@.volumes, cwd@),
            command_views(plan@) == start + networks + volumes.take(j as int),
        decreases project.volumes.len() - j,
    {
        let ghost before = command_views(plan@);
        let command = volume(VolumeCmd::Create(project.volumes[j].clone()), cwd);
        plan.push(command);
        proof {
            assert(command_views(plan@) =~= before.push(command@));
            assert(volumes.take(j + 1) =~= volumes.take(j as int).push(volumes[j as int]));
            assert(command_views(plan@) =~= start + networks + volumes.take(j + 1));
        }
        j += 1;
    }
    assert(volumes.take(j as int) =~= volumes);
}

/// The services of every selected project with their statuses, given what
/// the container tool reported of each project. For a project the declared
/// services appear, each once and in the declared order, with the status
/// reported for it and down where nothing was reported; what was reported of
/// services that are not declared is dropped.
pub fn statuses(parameters: &Parameters, reports: &SortedMap<StackReport>) -> (r: SortedMap<Vec<Service>>)
    requires
        parameters.wf(),
        reports.wf(),
    ensures
        r.wf(),
        r@.dom() == parameters.projects@.dom(),
        forall|k: Seq<char>|
            r@.dom().contains(k) ==> service_views((#[trigger] r@[k])@) == project_statuses(reports@, k),
{
    let mut result: SortedMap<Vec<Service>> = SortedMap::new();
    let n = parameters.projects.len();
    let mut i: usize = 0;
    while i < n
        invariant
            parameters.wf(),
            reports.wf(),
            result.wf(),
            n == parameters.projects.keys().len(),
            i <= n,
            forall|k: Seq<char>| result@.dom().contains(k) <==> parameters.projects.keys().take(i as int).contains(k),
            forall|k: Seq<char>|
                result@.dom().contains(k) ==> service_views((#[trigger] result@[k])@) == project_statuses(
                    reports@,
                    k,
                ),
        decreases n - i,
    {
        let key = parameters.projects.key_at(i);
        let services = match reports.get(key.as_str()) {
            Some(report) => service_statuses(&report.declared, &report.running),
            None => Vec::new(),
        };
        proof {
            crate::text::lemma_take_next(parameters.projects.keys(), i as int);
            assert(service_views(services@) =~= project_statuses(reports@, key@));
        }
        result.insert(key.clone(), services);
        i += 1;
    }
    proof {
        parameters.projects.lemma_keys();
        assert(parameters.projects.keys().take(n as int) =~= parameters.projects.keys());
        assert(result@.dom() =~= parameters.projects@.dom());
    }
    result
}

/// The commands that run the install hooks of the selected projects, in the
/// order of their keys: for each project the shared network, its networks
/// and volumes, then its hooks in its directory. An error where no project
/// is selected.
pub fn run_install(parameters: &Parameters, cwd: &str, home: &str) -> (r: Result<Vec<CommandWrapper>, PlanError>)
    requires
        parameters.wf(),
    ensures
        r is Err <==> parameters.projects.keys().len() == 0,
        r matches Ok(plan) ==> command_views(plan@) == install_plan(
            parameters.projects.keys(),
            project_views(parameters.projects@),
            parameters.app@.config.shared_network,
            cwd@,
            home@,
        ),
{
    let n = parameters.projects.len();
    if n == 0 {
        return Err(PlanError::NoProjects);
    }
    let ghost keys = parameters.projects.keys();
    let ghost projects = project_views(parameters.projects@);
    let ghost shared = parameters.app@.config.shared_network;
    let mut plan: Vec<CommandWrapper> = Vec::new();
    let mut i: usize = 0;
    assert(command_views(plan@) =~= install_plan(keys.take(0), projects, shared, cwd@, home@));
    while i < n
        invariant
            parameters.wf(),
            keys == parameters.projects.keys(),
            projects == project_views(parameters.projects@),
            shared == parameters.app@.config.shared_network,
            n == keys.len(),
            i <= n,
            command_views(plan@) == install_plan(keys.take(i as int), projects, shared, cwd@, home@),
        decreases n - i,
    {
        let project = parameters.projects.value_at(i);
        proof {
            parameters.projects.lemma_keys();
            assert(keys.take(i + 1).drop_last() =~= keys.take(i as int));
            assert(keys.take(i + 1).last() == keys[i as int]);
            assert(projects[keys[i as int]] == project@);
        }
        let ghost before = command_views(plan@);
        let shared_network = network(NetworkCmd::Create(parameters.app.config.shared_network.clone()), cwd);
        plan.push(shared_network);
        assert(command_views(plan@) =~= before + seq![shared_network@]);
        provide(&mut plan, project, cwd);
        append(&mut plan, run_from_list(&project.on_install, project.dir.as_str(), INSTALL_FAILED, home));
        assert(command_views(plan@) =~= before + install_steps(shared, project@, cwd@, home@));
        i += 1;
    }
    assert(keys.take(n as int) =~= keys);
    Ok(plan)
}

/// The commands that bring the app up, given the statuses of the selected
/// projects: first the shared network; then, for every project of the app
/// that has a declared service which is not running, in the order of the
/// keys, its networks and volumes, its hooks before, the stack, its hooks
/// after. Projects of which every declared service runs are left alone.
pub fn up(parameters: &Parameters, statuses: &SortedMap<Vec<Service>>, cwd: &str, home: &str) -> (r: Vec<
    CommandWrapper,
>)
    requires
        parameters.wf(),
        statuses.wf(),
    ensures
        command_views(r@) == seq![
            network_command(NetworkCmdView::Create(parameters.app@.config.shared_network), cwd@),
        ] + up_plan(
            parameters.app.projects.keys(),
            parameters.app@.projects,
            status_views(statuses@),
            cwd@,
            home@,
        ),
{
    let ghost keys = parameters.app.projects.keys();
    let ghost projects = parameters.app@.projects;
    let ghost states = status_views(statuses@);
    let shared_network = network(NetworkCmd::Create(parameters.app.config.shared_network.clone()), cwd);
    let ghost first = seq![shared_network@];
    let mut plan: Vec<CommandWrapper> = Vec::new();
    plan.push(shared_network);
    let n = parameters.app.projects.len();
    let mut i: usize = 0;
    assert(command_views(plan@) =~= first + up_plan(keys.take(0), projects, states, cwd@, home@));
    while i < n
        invariant
            parameters.wf(),
            statuses.wf(),
            keys == parameters.app.projects.keys(),
            projects == parameters.app@.projects,
            states == status_views(statuses@),
            n == keys.len(),
            i <= n,
            command_views(plan@) == first + up_plan(keys.take(i as int), projects, states, cwd@, home@),
        decreases n - i,
    {
        let key = parameters.app.projects.key_at(i);
        let project = parameters.app.projects.value_at(i);
        proof {
            parameters.app.projects.lemma_keys();
            assert(keys.take(i + 1).drop_last() =~= keys.take(i as int));
            assert(keys.take(i + 1).last() == keys[i as int]);
            assert(projects[keys[i as int]] == project@);
        }
        let down = match statuses.get(key.as_str()) {
            Some(services) => has_down(services),
            None => false,
        };
        assert(down == is_down(states, key@));
        if down {
            let ghost before = command_views(plan@);
            provide(&mut plan, project, cwd);
            append(&mut plan, run_from_list(&project.on_up, project.dir.as_str(), BUILD_FAILED, home));
            let stack = compose(
                ComposeCmd::Up(Vec::new(), clone_texts(&project.compose_files)),
                project.dir.as_str(),
            );
            assert(stack@ == compose_command(
                ComposeCmdView::Up(Seq::empty(), project@.compose_files),
                project@.dir,
            )) by {
                assert(texts(Seq::<String>::empty()) =~= Seq::<Seq<char>>::empty());
            }
            let ghost mid = command_views(plan@);
            plan.push(stack);
            assert(command_views(plan@) =~= mid + seq![stack@]);
            append(&mut plan, run_from_list(&project.after_up, project.dir.as_str(), AFTER_UP_FAILED, home));
            assert(command_views(plan@) =~= before + up_steps(project@, cwd@, home@));
        }
        i += 1;
    }
    assert(keys.take(n as int) =~= keys);
    plan
}

/// The commands that bring the selected projects down: for each project, in
/// the order of the keys, one command on its stack in its directory.
pub fn down(parameters: &Parameters) -> (r: Vec<CommandWrapper>)
    requires
        parameters.wf(),
    ensures
        r.len() == parameters.projects.keys().len(),
        forall|i: int|
            0 <= i < r.len() ==> (#[trigger] r@[i])@ == down_step(
                project_views(parameters.projects@)[parameters.projects.keys()[i]],
            ),
{
    let mut plan: Vec<CommandWrapper> = Vec::new();
    let n = parameters.projects.len();
    let mut i: usize = 0;
    while i < n
        invariant
            parameters.wf(),
            n == parameters.projects.keys().len(),
            i <= n,
            plan.len() == i,
            forall|j: int|
                0 <= j < i ==> (#[trigger] plan@[j])@ == down_step(
                    project_views(parameters.projects@)[parameters.projects.keys()[j]],
                ),
        decreases n - i,
    {
        let project = parameters.projects.value_at(i);
        proof {
            parameters.projects.lemma_keys();
        }
        plan.push(compose(ComposeCmd::Down(clone_texts(&project.compose_files)), project.dir.as_str()));
        i += 1;
    }
    plan
}

/// The command that runs `command` in a new container of `service` of the
/// project's stack.
pub fn run(service: &String, command: &Vec<String>, project: &Project) -> (r: CommandWrapper)
    ensures
        r@ == compose_command(
            ComposeCmdView::Run(service@, project@.compose_files, texts(command@)),
            project@.dir,
        ),
{
    compose(
        ComposeCmd::Run(service.clone(), clone_texts(&project.compose_files), clone_texts(command)),
        project.dir.as_str(),
    )
}

/// The command that runs `command` in the running `service` of the
/// project's stack.
pub fn exec(service: &String, command: &Vec<String>, project: &Project) -> (r: CommandWrapper)
    ensures
        r@ == compose_command(
            ComposeCmdView::Exec(service@, project@.compose_files, texts(command@)),
            project@.dir,
        ),
{
    compose(
        ComposeCmd::Exec(service.clone(), clone_texts(&project.compose_files), clone_texts(command)),
        project.dir.as_str(),
    )
}

/// One line of a status listing: the status, then the service's name.
pub open spec fn service_line(service: ServiceView) -> Seq<char> {
    "  "@ + service.status.shown() + "  "@ + service.name
}

/// The heading of a project in a status listing: its label where the app
/// has the project, the key itself where it has not.
pub open spec fn status_title(app: AppView, key: Seq<char>) -> Seq<char> {
    if app.projects.dom().contains(key) {
        app.projects[key].display_name()
    } else {
        key
    }
}

/// The lines that list one project: an empty line, the heading, and one line
/// for each service.
pub open spec fn status_block(title: Seq<char>, services: Seq<ServiceView>) -> Seq<Seq<char>> {
    seq![Seq::empty(), title] + Seq::new(services.len(), |i: int| service_line(services[i]))
}

/// The lines that list the projects under `keys`, in the order of `keys`.
pub open spec fn status_lines(
    keys: Seq<Seq<char>>,
    app: AppView,
    statuses: Map<Seq<char>, Seq<ServiceView>>,
) -> Seq<Seq<char>>
    decreases keys.len(),
{
    if keys.len() == 0 {
        Seq::empty()
    } else {
        status_lines(keys.drop_last(), app, statuses) + status_block(
            status_title(app, keys.last()),
            statuses[keys.last()],
        )
    }
}

/// The status listing, line by line: for every project that has statuses,
/// in the order of the keys, an empty line, the project's label, and one
/// line for each of its services.
pub fn status(parameters: &Parameters, statuses: &SortedMap<Vec<Service>>) -> (r: Vec<String>)
    requires
        parameters.wf(),
        statuses.wf(),
    ensures
        texts(r@) == status_lines(statuses.keys(), parameters.app@, status_views(statuses@)),
{
    let ghost keys = statuses.keys();
    let ghost states = status_views(statuses@);
    let mut lines: Vec<String> = Vec::new();
    let n = statuses.len();
    let mut i: usize = 0;
    assert(texts(lines@) =~= status_lines(keys.take(0), parameters.app@, states));
    while i < n
        invariant
            parameters.wf(),
            statuses.wf(),
            keys == statuses.keys(),
            states == status_views(statuses@),
            n == keys.len(),
            i <= n,
            texts(lines@) == status_lines(keys.take(i as int), parameters.app@, states),
        decreases n - i,
    {
        let key = statuses.key_at(i);
        let services = statuses.value_at(i);
        proof {
            statuses.lemma_keys();
            assert(keys.take(i + 1).drop_last() =~= keys.take(i as int));
            assert(keys.take(i + 1).last() == keys[i as int]);
            assert(states[keys[i as int]] == service_views(services@));
        }
        let title = match parameters.app.projects.get(key.as_str()) {
            Some(project) => project.name(),
            None => key.clone(),
        };
        assert(title@ == status_title(parameters.app@, key@));
        let ghost before = texts(lines@);
        let ghost block = status_block(title@, service_views(services@));
        lines.push(String::new());
        lines.push(title);
        assert(texts(lines@) =~= before + block.take(2));
        let mut j: usize = 0;
        while j < services.len()
            invariant
                j <= services.len(),
                block == status_block(title@, service_views(services@)),
                texts(lines@) == before + block.take(2 + j),
            decreases services.len() - j,
        {
            let service = &services[j];
            let mut line = "  ".to_owned();
            line.append(service.status.label());
            line.append("  ");
            line.append(service.name.as_str());
            let ghost so_far = texts(lines@);
            lines.push(line);
            proof {
                assert(line@ == service_line(service@));
                assert(block[2 + j] == service_line(service_views(services@)[j as int]));
                assert(block.take(2 + j + 1) =~= block.take(2 + j).push(block[2 + j]));
                assert(texts(lines@) =~= so_far.push(line@));
                assert(texts(lines@) =~= before + block.take(2 + j + 1));
            }
            j += 1;
        }
        assert(block.take(2 + j) =~= block);
        i += 1;
    }
    assert(keys.take(n as int) =~= keys);
    lines
}

/// The remote that a project is given where its repository names none.
pub open spec fn default_remote(dir_name: Seq<char>) -> Seq<char> {
    "https://git@github.com:name/"@ + dir_name + ".git"@
}

/// The last line that is not empty, and `default` where every line is.
pub open spec fn last_set(lines: Seq<Seq<char>>, default: Seq<char>) -> Seq<char>
    decreases lines.len(),
{
    if lines.len() == 0 {
        default
    } else if lines.last().len() > 0 {
        lines.last()
    } else {
        last_set(lines.drop_last(), default)
    }
}

/// Sets the project's remote from what the repository in its directory
/// answered when asked for the remote's address, line by line: the last line
/// that is not empty, and an address made of the directory's name where
/// there is none.
pub fn set_git_config(project: &mut Project, dir_name: &str, lines: &Vec<String>)
    ensures
        final(project)@ == (ProjectView {
            git: last_set(texts(lines@), default_remote(dir_name@)),
            ..old(project)@
        }),
{
    let mut remote = "https://git@github.com:name/".to_owned();
    remote.append(dir_name);
    remote.append(".git");
    let ghost all = texts(lines@);
    let mut i: usize = lines.len();
    assert(all.take(i as int) =~= all);
    while i > 0
        invariant
            i <= lines.len(),
            all == texts(lines@),
            remote@ == default_remote(dir_name@),
            *project == *old(project),
            last_set(all, remote@) == last_set(all.take(i as int), remote@),
        decreases i,
    {
        proof {
            assert(all.take(i as int).drop_last() =~= all.take(i as int - 1));
            assert(all.take(i as int).last() == lines@[i as int - 1]@);
        }
        i -= 1;
        if !lines[i].as_str().is_empty() {
            project.git = lines[i].clone();
            return ;
        }
    }
    project.git = remote;
}

/// The keys of the projects that have to be fetched: those that have a
/// remote and whose directory is among the missing ones.
pub open spec fn to_fetch(projects: Map<Seq<char>, ProjectView>, missing: Seq<Seq<char>>) -> Set<Seq<char>> {
    Set::new(|k: Seq<char>| projects.dom().contains(k) && projects[k].git.len() > 0 && missing.contains(k))
}

/// Whether `text` is one of the strings of `list`.
fn is_listed(list: &Vec<String>, text: &String) -> (r: bool)
    ensures
        r == texts(list@).contains(text@),
{
    let mut i: usize = 0;
    while i < list.len()
        invariant
            i <= list.len(),
            forall|j: int| 0 <= j < i ==> texts(list@)[j] != text@,
        decreases list.len() - i,
    {
        if list[i] == *text {
            assert(texts(list@)[i as int] == text@);
            return true;
        }
        i += 1;
    }
    false
}

/// The commands that fetch the selected projects which are not on disk yet,
/// by directory name: for every selected project that has a remote and whose
/// directory name is listed in `missing`, the command that clones the remote
/// under the app's shared directory.
pub fn install(parameters: &Parameters, missing: &Vec<String>) -> (r: SortedMap<CommandWrapper>)
    requires
        parameters.wf(),
    ensures
        r.wf(),
        r@.dom() == to_fetch(project_views(parameters.projects@), texts(missing@)),
        forall|k: Seq<char>|
            r@.dom().contains(k) ==> (#[trigger] r@[k])@ == crate::git::clone_command(
                project_views(parameters.projects@)[k].git,
                parameters.app@.config.shared_dir,
            ),
{
    let ghost projects = project_views(parameters.projects@);
    let mut fetches: SortedMap<CommandWrapper> = SortedMap::new();
    let n = parameters.projects.len();
    let mut i: usize = 0;
    while i < n
        invariant
            parameters.wf(),
            fetches.wf(),
            projects == project_views(parameters.projects@),
            n == parameters.projects.keys().len(),
            i <= n,
            forall|k: Seq<char>|
                fetches@.dom().contains(k) <==> parameters.projects.keys().take(i as int).contains(k) && to_fetch(
                    projects,
                    texts(missing@),
                ).contains(k),
            forall|k: Seq<char>|
                fetches@.dom().contains(k) ==> (#[trigger] fetches@[k])@ == crate::git::clone_command(
                    projects[k].git,
                    parameters.app@.config.shared_dir,
                ),
        decreases n - i,
    {
        let key = parameters.projects.key_at(i);
        let project = parameters.projects.value_at(i);
        proof {
            parameters.projects.lemma_keys();
            crate::text::lemma_take_next(parameters.projects.keys(), i as int);
            assert(projects[key@] == project@);
        }
        if !project.git.as_str().is_empty() && is_listed(missing, key) {
            fetches.insert(key.clone(), crate::git::clone(&project.git, parameters.app.config.shared_dir.as_str()));
        }
        i += 1;
    }
    proof {
        parameters.projects.lemma_keys();
        assert(parameters.projects.keys().take(n as int) =~= parameters.projects.keys());
        assert(fetches@.dom() =~= to_fetch(projects, texts(missing@)));
    }
    fetches
}

/// What initialising a directory comes to: the configuration to write into
/// the directory, the cached configuration to write back, and, where the
/// directory has yet to be registered with an app that the cache knows, the
/// directory of the install project whose configuration is to take it up.
#[derive(Debug, PartialEq)]
pub struct InitPlan {
    pub project_config: Config,
    pub cached_config: Config,
    pub register_in: Option<String>,
}

/// The configuration that is written into a directory when it is
/// initialised. For an app that the cache does not know, the directory
/// becomes the install project of a new app, whose shared network is named
/// after the app. For a known app, the app without projects or settings.
pub open spec fn init_project_config(
    app_name: Seq<char>,
    dir_name: Seq<char>,
    known: bool,
    remote: Seq<char>,
) -> ConfigView {
    if known {
        ConfigView { apps: Map::empty().insert(app_name, AppView::empty()) }
    } else {
        ConfigView {
            apps: Map::empty().insert(
                app_name,
                AppView {
                    projects: Map::empty().insert(
                        dir_name,
                        ProjectView { is_install: true, git: remote, ..ProjectView::empty() },
                    ),
                    config: AppConfigView { shared_network: app_name, ..AppConfigView::empty() },
                },
            ),
        }
    }
}

/// The cached configuration into which the new one is merged: a known app
/// anchored at the working directory where it has no install directory, an
/// unknown app added with nothing but that anchor.
pub open spec fn init_base(cached: ConfigView, app_name: Seq<char>, cwd: Seq<char>) -> ConfigView {
    if cached.apps.dom().contains(app_name) {
        cached.anchored(app_name, cwd)
    } else {
        ConfigView {
            apps: cached.apps.insert(
                app_name,
                AppView { projects: Map::empty(), config: AppConfigView::empty().anchored(cwd) },
            ),
        }
    }
}

/// Where a directory that is initialised has to be registered: in the
/// directory of the install project of its app, where the cache knows the
/// app, the app has an install project and does not have the directory yet.
pub open spec fn registration_dir(cached: ConfigView, app_name: Seq<char>, dir_name: Seq<char>) -> Option<
    Seq<char>,
> {
    if cached.apps.dom().contains(app_name) && !cached.apps[app_name].projects.dom().contains(dir_name) {
        match first_key(cached.apps[app_name].projects, is_flagged()) {
            Some(key) => Some(cached.apps[app_name].projects[key].dir),
            None => None,
        }
    } else {
        None
    }
}

/// Plans the initialisation of the working directory `cwd`, whose last
/// component is `dir_name`, as a project of the app called `app_name`.
/// `git_lines` is what the repository in the directory answered when asked
/// for its remote.
pub fn init(app_name: &String, cwd: &str, dir_name: &str, cached: &Config, git_lines: &Vec<String>) -> (r:
    InitPlan)
    requires
        cached.wf(),
    ensures
        r.project_config.wf(),
        r.cached_config.wf(),
        r.project_config@ == init_project_config(
            app_name@,
            dir_name@,
            cached@.apps.dom().contains(app_name@),
            last_set(texts(git_lines@), default_remote(dir_name@)),
        ),
        r.cached_config@ == init_base(cached@, app_name@, cwd@).merge(r.project_config@),
        option_text(&r.register_in) == registration_dir(cached@, app_name@, dir_name@),
{
    let mut base = cached.clone();
    let mut new_config = Config::new();
    let mut register_in: Option<String> = None;
    let new_app = new_config.add_app(app_name);
    let known = cached.apps.get(app_name.as_str());
    if known.is_none() {
        new_app.config.shared_network = app_name.clone();
        let project = new_app.add_project(dir_name);
        project.is_install = true;
        set_git_config(project, dir_name, git_lines);
        let cached_app = base.add_app(app_name);
        cached_app.config.init(cwd);
        proof {
            let remote = last_set(texts(git_lines@), default_remote(dir_name@));
            assert(new_config@.apps[app_name@].projects =~= Map::empty().insert(
                dir_name@,
                ProjectView { is_install: true, git: remote, ..ProjectView::empty() },
            ));
            assert(new_config@.apps =~= init_project_config(app_name@, dir_name@, false, remote).apps);
            assert(base@.apps =~= init_base(cached@, app_name@, cwd@).apps);
        }
    } else {
        proof {
            assert(new_config@.apps =~= init_project_config(
                app_name@,
                dir_name@,
                true,
                last_set(texts(git_lines@), default_remote(dir_name@)),
            ).apps);
        }
        base.anchor(app_name, cwd);
        let cached_app = known.unwrap();
        if !cached_app.projects.contains_key(dir_name) {
            match first_match(&cached_app.projects, &Criterion::Flagged) {
                Some(at) => {
                    proof {
                        cached_app.projects.lemma_keys();
                    }
                    register_in = Some(cached_app.projects.value_at(at).dir.clone());
                },
                None => {},
            }
        }
    }
    let cached_config = base.merge(&new_config);
    InitPlan { project_config: new_config, cached_config, register_in }
}

/// The configuration with the project under `dir_name` of the app called
/// `app_name` given the remote `remote`; the project is added, with nothing
/// else set, where the app does not have it. None where there is no such
/// app.
pub open spec fn registered(
    config: ConfigView,
    app_name: Seq<char>,
    dir_name: Seq<char>,
    remote: Seq<char>,
) -> Option<ConfigView> {
    if config.apps.dom().contains(app_name) {
        let app = config.apps[app_name];
        let project = if app.projects.dom().contains(dir_name) {
            app.projects[dir_name]
        } else {
            ProjectView::empty()
        };
        Some(
            ConfigView {
                apps: config.apps.insert(
                    app_name,
                    AppView { projects: app.projects.insert(dir_name, ProjectView { git: remote, ..project }), ..app },
                ),
            },
        )
    } else {
        None
    }
}

/// Registers the directory called `dir_name` as a project of the app called
/// `app_name` in the configuration of the app's install project, with the
/// remote that `git_lines` gives. None where that configuration does not
/// have the app.
pub fn register(install_config: &Config, app_name: &String, dir_name: &str, git_lines: &Vec<String>) -> (r:
    Option<Config>)
    requires
        install_config.wf(),
    ensures
        match r {
            Some(config) => config.wf() && Some(config@) == registered(
                install_config@,
                app_name@,
                dir_name@,
                last_set(texts(git_lines@), default_remote(dir_name@)),
            ),
            None => !install_config@.apps.dom().contains(app_name@),
        },
{
    if !install_config.apps.contains_key(app_name.as_str()) {
        return None;
    }
    let mut config = install_config.clone();
    let app = config.get(app_name);
    let mut project = match app.projects.get(dir_name) {
        Some(found) => found.clone(),
        None => Project::new(),
    };
    set_git_config(&mut project, dir_name, git_lines);
    let ghost before = app.projects@;
    app.projects.insert(dir_name.to_owned(), project);
    proof {
        assert(project_views(app.projects@) =~= project_views(before).insert(dir_name@, project@));
        assert(config@.apps =~= registered(
            install_config@,
            app_name@,
            dir_name@,
            last_set(texts(git_lines@), default_remote(dir_name@)),
        )->0.apps);
    }
    Some(config)
}

} // verus!
