//! The Docker engine: what to make of what the Docker daemon answers, and the
//! steps of a restart from a freshly pulled image.

use vstd::prelude::*;
use vstd::string::*;

use crate::error::VelaError;
use crate::models::RestartOutcome;
use crate::text;

verus! {

/// Seconds that Docker gives a container to stop before a restart kills it.
pub const DOCKER_RESTART_TIMEOUT_SECS: u64 = 10;

/// Whether `e` is a process error in these words.
pub open spec fn is_process_error(e: VelaError, words: Seq<char>) -> bool {
    e matches VelaError::ProcessError(msg) && msg@ == words
}

/// The error for a Docker client that could not be set up.
pub fn connect_error(detail: &str) -> (e: VelaError)
    ensures
        is_process_error(
            e,
            "Failed to connect to Docker daemon: "@ + detail@
                + ". Is Docker running, and does this process have permission to access the Docker socket? On Linux, add your user to the `docker` group (sudo usermod -aG docker $USER) or run as root."@,
        ),
{
    VelaError::ProcessError(
        String::from_str("Failed to connect to Docker daemon: ").concat(detail).concat(
            ". Is Docker running, and does this process have permission to access the Docker socket? On Linux, add your user to the `docker` group (sudo usermod -aG docker $USER) or run as root.",
        ),
    )
}

/// The error for a Docker daemon that does not answer.
pub fn ping_error(detail: &str) -> (e: VelaError)
    ensures
        is_process_error(
            e,
            "Docker daemon did not respond to ping: "@ + detail@
                + ". Is the Docker daemon running?"@,
        ),
{
    VelaError::ProcessError(
        String::from_str("Docker daemon did not respond to ping: ").concat(detail).concat(
            ". Is the Docker daemon running?",
        ),
    )
}

/// The error for a container that could not be inspected.
pub fn inspect_error(container: &str, detail: &str) -> (e: VelaError)
    ensures
        is_process_error(e, "Failed to inspect container '"@ + container@ + "': "@ + detail@),
{
    VelaError::ProcessError(
        String::from_str("Failed to inspect container '").concat(container).concat("': ").concat(
            detail,
        ),
    )
}

fn is_set(flag: Option<bool>) -> (result: bool)
    ensures
        result == (flag == Some(true)),
{
    match flag {
        Some(value) => value,
        None => false,
    }
}

/// What Docker says of the state of a container. Of a paused container it says
/// both that it is running and that it is paused.
#[derive(Debug, Clone, Copy)]
pub struct ContainerState {
    pub running: Option<bool>,
    pub paused: Option<bool>,
    pub dead: Option<bool>,
}

/// Whether a container is at work: it is running, and neither paused nor dead.
/// `inspection` is its state, if it has one, or what Docker complained of.
pub fn get_container_status(
    container: &str,
    inspection: Result<Option<ContainerState>, String>,
) -> (result: Result<bool, VelaError>)
    ensures
        match inspection {
            Ok(state) => result == Ok::<bool, VelaError>(
                state is Some && state->0.running == Some(true) && state->0.paused != Some(true)
                    && state->0.dead != Some(true),
            ),
            Err(detail) => result matches Err(e) && is_process_error(
                e,
                "Failed to inspect container '"@ + container@ + "': "@ + detail@,
            ),
        },
{
    match inspection {
        Ok(Some(state)) => Ok(
            is_set(state.running) && !is_set(state.paused) && !is_set(state.dead),
        ),
        Ok(None) => Ok(false),
        Err(detail) => Err(inspect_error(container, detail.as_str())),
    }
}

/// The first port of a list of host ports that is one.
pub open spec fn first_bound_port(bindings: Seq<Option<String>>) -> Option<u16>
    decreases bindings.len(),
{
    if bindings.len() == 0 {
        None
    } else {
        match bindings[0] {
            Some(port) => match text::port_value(port@) {
                Some(value) => Some(value),
                None => first_bound_port(bindings.drop_first()),
            },
            None => first_bound_port(bindings.drop_first()),
        }
    }
}

/// The first host port that any of the exposed ports is bound to.
pub open spec fn first_exposed_port(ports: Seq<Option<Vec<Option<String>>>>) -> Option<u16>
    decreases ports.len(),
{
    if ports.len() == 0 {
        None
    } else {
        match ports[0] {
            Some(bindings) => match first_bound_port(bindings@) {
                Some(value) => Some(value),
                None => first_exposed_port(ports.drop_first()),
            },
            None => first_exposed_port(ports.drop_first()),
        }
    }
}

fn find_bound_port(bindings: &Vec<Option<String>>) -> (result: Option<u16>)
    ensures
        result == first_bound_port(bindings@),
{
    let mut i: usize = 0;
    assert(bindings@.skip(0) =~= bindings@);
    while i < bindings.len()
        invariant
            i <= bindings@.len(),
            first_bound_port(bindings@) == first_bound_port(bindings@.skip(i as int)),
        decreases bindings.len() - i,
    {
        assert(bindings@.skip(i as int).drop_first() =~= bindings@.skip(i + 1));
        if let Some(port) = &bindings[i] {
            if let Some(value) = text::parse_port(port.as_str()) {
                return Some(value);
            }
        }
        i = i + 1;
    }
    None
}

/// The first host port that a container publishes. `ports` holds, for each
/// exposed port in the order of the answer, the host ports it is bound to.
pub fn get_container_port(
    container: &str,
    ports: Option<Vec<Option<Vec<Option<String>>>>>,
) -> (result: Result<u16, VelaError>)
    ensures
        match ports {
            None => result matches Err(e) && is_process_error(
                e,
                "Container '"@ + container@ + "' has no network settings"@,
            ),
            Some(ports) => match first_exposed_port(ports@) {
                Some(port) => result == Ok::<u16, VelaError>(port),
                None => result matches Err(e) && is_process_error(
                    e,
                    "Container '"@ + container@ + "' has no exposed host port"@,
                ),
            },
        },
{
    let exposed = match ports {
        Some(exposed) => exposed,
        None => return Err(
            VelaError::ProcessError(
                String::from_str("Container '").concat(container).concat(
                    "' has no network settings",
                ),
            ),
        ),
    };
    let mut i: usize = 0;
    assert(exposed@.skip(0) =~= exposed@);
    while i < exposed.len()
        invariant
            ports == Some(exposed),
            i <= exposed@.len(),
            first_exposed_port(exposed@) == first_exposed_port(exposed@.skip(i as int)),
        decreases exposed.len() - i,
    {
        assert(exposed@.skip(i as int).drop_first() =~= exposed@.skip(i + 1));
        if let Some(bindings) = &exposed[i] {
            if let Some(port) = find_bound_port(bindings) {
                return Ok(port);
            }
        }
        i = i + 1;
    }
    Err(
        VelaError::ProcessError(
            String::from_str("Container '").concat(container).concat("' has no exposed host port"),
        ),
    )
}

/// Whether `outcome` is a failure in these words.
pub open spec fn failed_with(outcome: RestartOutcome, words: Seq<char>) -> bool {
    outcome matches RestartOutcome::Failed(reason) && reason@ == words
}

/// How a restart of a container in place ended. `failure` is what Docker
/// complained of, if it did.
pub fn restart_container(container: &str, failure: Option<String>) -> (outcome: RestartOutcome)
    ensures
        match failure {
            None => outcome is Succeeded,
            Some(detail) => failed_with(
                outcome,
                "Docker restart of '"@ + container@ + "' failed: "@ + detail@,
            ),
        },
{
    match failure {
        None => RestartOutcome::Succeeded,
        Some(detail) => RestartOutcome::Failed(
            String::from_str("Docker restart of '").concat(container).concat("' failed: ").concat(
                detail.as_str(),
            ),
        ),
    }
}

/// The steps of a restart from a freshly pulled image, in their order.
#[derive(Debug, Clone, Copy, PartialEq, Eq, Structural)]
pub enum RepullStep {
    /// Read the settings of the container, which its successor keeps.
    Inspect,
    /// Pull the image.
    Pull,
    /// Stop the container.
    Stop,
    /// Remove it.
    Remove,
    /// Create its successor under the same name.
    Create,
    /// Start the successor.
    Start,
}

/// What follows a step.
#[derive(Debug)]
pub enum RepullProgress {
    /// Another step.
    Next(RepullStep),
    /// The end.
    Done(RestartOutcome),
}

/// The step after a step that succeeded; none after the last one.
pub open spec fn step_after(step: RepullStep) -> Option<RepullStep> {
    match step {
        RepullStep::Inspect => Some(RepullStep::Pull),
        RepullStep::Pull => Some(RepullStep::Stop),
        RepullStep::Stop => Some(RepullStep::Remove),
        RepullStep::Remove => Some(RepullStep::Create),
        RepullStep::Create => Some(RepullStep::Start),
        RepullStep::Start => None,
    }
}

/// The words for a step that failed.
pub open spec fn repull_failure(
    step: RepullStep,
    container: Seq<char>,
    image: Seq<char>,
    detail: Seq<char>,
) -> Seq<char> {
    match step {
        RepullStep::Inspect => "repull: failed to inspect existing container '"@ + container
            + "': "@ + detail,
        RepullStep::Pull => "repull: failed to pull image '"@ + image + "': "@ + detail,
        RepullStep::Stop => "repull: failed to stop container '"@ + container + "': "@ + detail,
        RepullStep::Remove => "repull: failed to remove container '"@ + container + "': "@ + detail,
        RepullStep::Create => "repull: failed to create new container '"@ + container
            + "' from image '"@ + image + "': "@ + detail,
        RepullStep::Start => "repull: failed to start recreated container '"@ + container + "': "@
            + detail,
    }
}

/// Whether `progress` is what follows the step `step` with this result: the
/// next step where it succeeded, the end where it failed. A container that
/// cannot be stopped may be stopped already, so that failure is passed over.
pub open spec fn follows(
    progress: RepullProgress,
    step: RepullStep,
    container: Seq<char>,
    image: Seq<char>,
    failure: Option<Seq<char>>,
) -> bool {
    if failure is None || step == RepullStep::Stop {
        match step_after(step) {
            Some(next) => progress == RepullProgress::Next(next),
            None => progress matches RepullProgress::Done(outcome) && outcome is Succeeded,
        }
    } else {
        progress matches RepullProgress::Done(outcome) && failed_with(
            outcome,
            repull_failure(step, container, image, failure->0),
        )
    }
}

/// The view of an optional string.
pub open spec fn words(text: Option<String>) -> Option<Seq<char>> {
    match text {
        Some(s) => Some(s@),
        None => None,
    }
}

/// What to do after a step of a restart from a freshly pulled image. `failure`
/// is what Docker complained of, if it did.
pub fn repull_and_restart(
    step: RepullStep,
    container: &str,
    image: &str,
    failure: Option<String>,
) -> (progress: RepullProgress)
    ensures
        follows(progress, step, container@, image@, words(failure)),
{
    match step {
        RepullStep::Inspect => match failure {
            None => RepullProgress::Next(RepullStep::Pull),
            Some(detail) => RepullProgress::Done(
                RestartOutcome::Failed(
                    String::from_str("repull: failed to inspect existing container '").concat(
                        container,
                    ).concat("': ").concat(detail.as_str()),
                ),
            ),
        },
        RepullStep::Pull => match failure {
            None => RepullProgress::Next(RepullStep::Stop),
            Some(detail) => RepullProgress::Done(
                RestartOutcome::Failed(
                    String::from_str("repull: failed to pull image '").concat(image).concat(
                        "': ",
                    ).concat(detail.as_str()),
                ),
            ),
        },
        RepullStep::Stop => RepullProgress::Next(RepullStep::Remove),
        RepullStep::Remove => match failure {
            None => RepullProgress::Next(RepullStep::Create),
            Some(detail) => RepullProgress::Done(
                RestartOutcome::Failed(
                    String::from_str("repull: failed to remove container '").concat(
                        container,
                    ).concat("': ").concat(detail.as_str()),
                ),
            ),
        },
        RepullStep::Create => match failure {
            None => RepullProgress::Next(RepullStep::Start),
            Some(detail) => RepullProgress::Done(
                RestartOutcome::Failed(
                    String::from_str("repull: failed to create new container '").concat(
                        container,
                    ).concat("' from image '").concat(image).concat("': ").concat(detail.as_str()),
                ),
            ),
        },
        RepullStep::Start => match failure {
            None => RepullProgress::Done(RestartOutcome::Succeeded),
            Some(detail) => RepullProgress::Done(
                RestartOutcome::Failed(
                    String::from_str("repull: failed to start recreated container '").concat(
                        container,
                    ).concat("': ").concat(detail.as_str()),
                ),
            ),
        },
    }
}

/// What the container that takes the place of another one is created with. `C`
/// is a configuration of a container, `H` that of its host: port bindings,
/// volumes, restart policy.
#[derive(Debug)]
pub struct Successor<C, H> {
    pub name: String,
    pub image: String,
    /// The rest of the configuration. An image or a host configuration in it is
    /// overridden by the fields here.
    pub config: C,
    pub host_config: Option<H>,
}

/// What to create in the step `RepullStep::Create`: a container with the name
/// of the old one, the pulled image, and otherwise what the inspection of the
/// old one gave.
pub fn successor<C, H>(container: &str, image: &str, config: C, host_config: Option<H>) -> (s:
    Successor<C, H>)
    ensures
        s.name@ == container@,
        s.image@ == image@,
        s.config == config,
        s.host_config == host_config,
{
    Successor { name: container.to_owned(), image: image.to_owned(), config, host_config }
}

/// How many steps are left before the end, this one counted.
pub open spec fn steps_left(step: RepullStep) -> nat {
    match step {
        RepullStep::Inspect => 6,
        RepullStep::Pull => 5,
        RepullStep::Stop => 4,
        RepullStep::Remove => 3,
        RepullStep::Create => 2,
        RepullStep::Start => 1,
    }
}

/// A restart from a pulled image comes to its end: each step that goes on has
/// one step fewer before it. It ends well only after the last step.
pub proof fn lemma_repull_ends(
    progress: RepullProgress,
    step: RepullStep,
    container: Seq<char>,
    image: Seq<char>,
    failure: Option<Seq<char>>,
)
    requires
        follows(progress, step, container, image, failure),
    ensures
        progress matches RepullProgress::Next(next) ==> steps_left(next) + 1 == steps_left(step),
        progress matches RepullProgress::Done(outcome) ==> (outcome is Succeeded) == (step
            == RepullStep::Start && failure is None),
{
}

/// Where the old container cannot be inspected or the image cannot be pulled,
/// the restart ends there, and the old container is neither stopped nor removed.
pub proof fn lemma_failed_pull_spares_the_container(
    progress: RepullProgress,
    step: RepullStep,
    container: Seq<char>,
    image: Seq<char>,
    detail: Seq<char>,
)
    requires
        follows(progress, step, container, image, Some(detail)),
        step == RepullStep::Inspect || step == RepullStep::Pull,
    ensures
        progress matches RepullProgress::Done(outcome) && outcome is Failed,
{
}

/// The port of a container is the first one, in the order of the answer, that a
/// binding spells; where there is one it is found.
pub proof fn lemma_container_port_in_full(ports: Seq<Option<Vec<Option<String>>>>)
    ensures
        first_exposed_port(ports) matches Some(port) ==> exists|i: int, k: int|
            is_bound_at(ports, i, k, port) && #[trigger] none_before(ports, i, k),
        first_exposed_port(ports) is None ==> forall|i: int, k: int, port: u16|
            !#[trigger] is_bound_at(ports, i, k, port),
    decreases ports.len(),
{
    if ports.len() > 0 {
        let rest = ports.drop_first();
        lemma_container_port_in_full(rest);
        if ports[0] is Some {
            lemma_bound_port_in_full(ports[0]->0@);
        }
        let first = if ports[0] is Some {
            first_bound_port(ports[0]->0@)
        } else {
            None
        };
        match first {
            Some(port) => {
                let bindings = ports[0]->0@;
                let k = choose|k: int|
                    0 <= k < bindings.len() && spells(#[trigger] bindings[k], port) && forall|j: int|
                        0 <= j < k ==> !spells_any(#[trigger] bindings[j]);
                assert(is_bound_at(ports, 0, k, port));
                assert(none_before(ports, 0, k));
            },
            None => {
                assert forall|k: int, port: u16| !#[trigger] is_bound_at(ports, 0, k, port) by {
                    if is_bound_at(ports, 0, k, port) {
                        assert(spells_any(ports[0]->0@[k]));
                    }
                }
                if let Some(port) = first_exposed_port(rest) {
                    let (i, k) = choose|i: int, k: int|
                        is_bound_at(rest, i, k, port) && #[trigger] none_before(rest, i, k);
                    assert(rest[i] == ports[i + 1]);
                    assert(is_bound_at(ports, i + 1, k, port));
                    assert forall|j: int, l: int, p: u16|
                        (j < i + 1 || (j == i + 1 && l < k)) implies !#[trigger] is_bound_at(
                        ports,
                        j,
                        l,
                        p,
                    ) by {
                        if is_bound_at(ports, j, l, p) && j > 0 {
                            assert(rest[j - 1] == ports[j]);
                            assert(is_bound_at(rest, j - 1, l, p));
                        }
                    }
                    assert(none_before(ports, i + 1, k));
                } else {
                    assert forall|i: int, k: int, port: u16| !#[trigger] is_bound_at(
                        ports,
                        i,
                        k,
                        port,
                    ) by {
                        if is_bound_at(ports, i, k, port) && i > 0 {
                            assert(rest[i - 1] == ports[i]);
                            assert(is_bound_at(rest, i - 1, k, port));
                        }
                    }
                }
            },
        }
    }
}

/// Whether a host port spells this number.
pub open spec fn spells(binding: Option<String>, port: u16) -> bool {
    binding matches Some(words) && text::port_value(words@) == Some(port)
}

/// Whether a host port spells a number.
pub open spec fn spells_any(binding: Option<String>) -> bool {
    binding matches Some(words) && text::port_value(words@) is Some
}

/// Whether the host port at `k` of the exposed port at `i` spells this number.
pub open spec fn is_bound_at(
    ports: Seq<Option<Vec<Option<String>>>>,
    i: int,
    k: int,
    port: u16,
) -> bool {
    &&& 0 <= i < ports.len()
    &&& ports[i] is Some
    &&& 0 <= k < ports[i]->0@.len()
    &&& spells(ports[i]->0@[k], port)
}

/// Whether no host port before the one at `k` of the exposed port at `i` spells a
/// number.
pub open spec fn none_before(ports: Seq<Option<Vec<Option<String>>>>, i: int, k: int) -> bool {
    forall|j: int, l: int, p: u16|
        (j < i || (j == i && l < k)) ==> !#[trigger] is_bound_at(ports, j, l, p)
}

proof fn lemma_bound_port_in_full(bindings: Seq<Option<String>>)
    ensures
        first_bound_port(bindings) matches Some(port) ==> exists|k: int|
            0 <= k < bindings.len() && spells(#[trigger] bindings[k], port) && forall|j: int|
                0 <= j < k ==> !spells_any(#[trigger] bindings[j]),
        first_bound_port(bindings) is None ==> forall|k: int|
            0 <= k < bindings.len() ==> !spells_any(#[trigger] bindings[k]),
    decreases bindings.len(),
{
    if bindings.len() > 0 {
        let rest = bindings.drop_first();
        lemma_bound_port_in_full(rest);
        if spells_any(bindings[0]) {
            assert(spells(bindings[0], first_bound_port(bindings)->0));
        } else if let Some(port) = first_bound_port(rest) {
            let k = choose|k: int|
                0 <= k < rest.len() && spells(#[trigger] rest[k], port) && forall|j: int|
                    0 <= j < k ==> !spells_any(#[trigger] rest[j]);
            assert(bindings[k + 1] == rest[k]);
            assert(spells(bindings[k + 1], port));
            assert forall|j: int| 0 <= j < k + 1 implies !spells_any(#[trigger] bindings[j]) by {
                if j > 0 {
                    assert(bindings[j] == rest[j - 1]);
                }
            }
        } else {
            assert forall|k: int| 0 <= k < bindings.len() implies !spells_any(
                #[trigger] bindings[k],
            ) by {
                if k > 0 {
                    assert(bindings[k] == rest[k - 1]);
                }
            }
        }
    }
}

/// The steps of a restart from a pulled image come in this order: inspect, pull,
/// stop, remove, create, start. Each of them but the stop has to succeed, and a
/// failure says which step it was.
pub proof fn lemma_repull_in_full(
    progress: RepullProgress,
    step: RepullStep,
    container: Seq<char>,
    image: Seq<char>,
    failure: Option<Seq<char>>,
)
    requires
        follows(progress, step, container, image, failure),
    ensures
        failure is None || step == RepullStep::Stop ==> match step {
            RepullStep::Inspect => progress == RepullProgress::Next(RepullStep::Pull),
            RepullStep::Pull => progress == RepullProgress::Next(RepullStep::Stop),
            RepullStep::Stop => progress == RepullProgress::Next(RepullStep::Remove),
            RepullStep::Remove => progress == RepullProgress::Next(RepullStep::Create),
            RepullStep::Create => progress == RepullProgress::Next(RepullStep::Start),
            RepullStep::Start => progress matches RepullProgress::Done(outcome) && outcome
                is Succeeded,
        },
        failure is Some && step != RepullStep::Stop ==> (progress matches RepullProgress::Done(
            outcome,
        ) && (outcome matches RestartOutcome::Failed(reason) && match step {
            RepullStep::Inspect => reason@ == "repull: failed to inspect existing container '"@
                + container + "': "@ + failure->0,
            RepullStep::Pull => reason@ == "repull: failed to pull image '"@ + image + "': "@
                + failure->0,
            RepullStep::Remove => reason@ == "repull: failed to remove container '"@ + container
                + "': "@ + failure->0,
            RepullStep::Create => reason@ == "repull: failed to create new container '"@ + container
                + "' from image '"@ + image + "': "@ + failure->0,
            RepullStep::Start => reason@ == "repull: failed to start recreated container '"@
                + container + "': "@ + failure->0,
            RepullStep::Stop => false,
        })),
{
}

/// A container is at work only where it is said to be running, and neither paused
/// nor dead; a container without a state, or one that could not be inspected, is
/// not.
pub proof fn lemma_container_status_in_full(
    container: &str,
    inspection: Result<Option<ContainerState>, String>,
    result: Result<bool, VelaError>,
)
    requires
        call_ensures(get_container_status, (container, inspection), result),
    ensures
        inspection is Err <==> result is Err,
        result == Ok::<bool, VelaError>(true) <==> (inspection matches Ok(Some(state))
            && state.running == Some(true) && state.paused != Some(true) && state.dead != Some(
            true,
        )),
{
}

} // verus!
