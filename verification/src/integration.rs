//! Plans for running integration tests in containers: which command is to
//! be run, with which arguments and in which environment, and in which
//! order the steps come. Running a plan is left to the caller.

use vstd::prelude::*;
use crate::assoc::{last_position, position};
use crate::text::push_char;

verus! {

/// The settings of one environment: named values.
pub type Environment = Vec<(String, String)>;

/// The contents of a list of strings.
pub open spec fn texts(list: Seq<String>) -> Seq<Seq<char>> {
    Seq::new(list.len(), |i: int| list[i]@)
}

/// The contents of a list of named values.
pub open spec fn pairs(list: Seq<(String, String)>) -> Seq<(Seq<char>, Seq<char>)> {
    Seq::new(list.len(), |i: int| (list[i].0@, list[i].1@))
}

/// A command that is to be run.
#[derive(Debug, PartialEq)]
pub struct CommandPlan {
    /// The program.
    pub program: String,
    /// Its arguments, in order.
    pub args: Vec<String>,
    /// The directory to run it in.
    pub directory: String,
    /// What is added to the environment, in order; a later entry of a
    /// name replaces an earlier one.
    pub env: Vec<(String, String)>,
}

/// The mathematical content of a [`CommandPlan`].
pub struct CommandView {
    pub program: Seq<char>,
    pub args: Seq<Seq<char>>,
    pub directory: Seq<char>,
    pub env: Seq<(Seq<char>, Seq<char>)>,
}

impl View for CommandPlan {
    type V = CommandView;

    open spec fn view(&self) -> CommandView {
        CommandView {
            program: self.program@,
            args: texts(self.args@),
            directory: self.directory@,
            env: pairs(self.env@),
        }
    }
}

/// What the plans take from the machine that they are made on.
#[derive(Debug, PartialEq)]
pub struct Tooling {
    /// The program that runs containers.
    pub container_tool: String,
    /// The directory of the project.
    pub root: String,
    /// The version of the compiler that the project is built with.
    pub rust_version: String,
}

/// A path with one more part: the two with a `/` between them, unless the
/// path is empty or ends in one.
pub open spec fn joined(path: Seq<char>, part: Seq<char>) -> Seq<char> {
    if path.len() == 0 || path.last() == '/' {
        path + part
    } else {
        path + seq!['/'] + part
    }
}

/// The name of the compose file of an integration of the old kind.
pub open spec fn old_compose_name(integration: Seq<char>) -> Seq<char> {
    "docker-compose."@ + integration + ".yml"@
}

/// The path of the compose file of an integration of the old kind, below
/// the directory `root` of the project.
pub open spec fn old_compose_path(root: Seq<char>, integration: Seq<char>) -> Seq<char> {
    joined(joined(joined(root, "scripts"@), "integration"@), old_compose_name(integration))
}

/// Adds one part to a path.
fn push_part(path: &mut String, part: &str)
    ensures
        final(path)@ == joined(old(path)@, part@),
{
    let size = path.as_str().unicode_len();
    if size > 0 && path.as_str().get_char(size - 1) != '/' {
        push_char(path, '/');
    }
    path.append(part);
}

/// The path of the compose file of the integration `integration` of the
/// old kind, below the directory `root` of the project.
pub fn old_integration_path(root: &str, integration: &str) -> (path: String)
    ensures
        path@ == old_compose_path(root@, integration@),
{
    let mut filename = "docker-compose.".to_string();
    filename.append(integration);
    filename.append(".yml");
    let mut path = root.to_string();
    push_part(&mut path, "scripts");
    push_part(&mut path, "integration");
    push_part(&mut path, filename.as_str());
    path
}

/// The command that runs the compose tool on the file `compose_path` with
/// the arguments `args`, in the directory of the project.
pub open spec fn old_compose_command(
    compose_path: Seq<char>,
    args: Seq<Seq<char>>,
    tooling: Tooling,
) -> CommandView {
    CommandView {
        program: tooling.container_tool@ + "-compose"@,
        args: seq!["--file"@, compose_path] + args,
        directory: tooling.root@,
        env: seq![("RUST_VERSION"@, tooling.rust_version@)],
    }
}

/// The contents of a list of string slices.
pub open spec fn words(list: Seq<&'static str>) -> Seq<Seq<char>> {
    Seq::new(list.len(), |i: int| list[i]@)
}

/// The runner of an integration test of the old kind.
#[derive(Debug, PartialEq)]
pub struct OldIntegrationTest {
    compose_path: String,
}

impl OldIntegrationTest {
    /// The path of the compose file.
    pub closed spec fn compose_path(&self) -> Seq<char> {
        self.compose_path@
    }

    /// The runner of the integration `integration`, whose compose file
    /// lies below the directory `root` of the project.
    pub fn new(root: &str, integration: &str) -> (runner: OldIntegrationTest)
        ensures
            runner.compose_path() == old_compose_path(root@, integration@),
    {
        let compose_path = old_integration_path(root, integration);
        OldIntegrationTest { compose_path }
    }

    /// The command that builds the containers.
    pub fn build(&self, tooling: &Tooling) -> (command: CommandPlan)
        ensures
            command@ == old_compose_command(self.compose_path(), seq!["build"@], *tooling),
    {
        let command = self.compose(vec!["build"], tooling);
        assert(command@.args =~= seq!["--file"@, self.compose_path()] + seq!["build"@]);
        command
    }

    /// The command that runs the tests, and removes the container when
    /// they are done.
    pub fn test(&self, tooling: &Tooling) -> (command: CommandPlan)
        ensures
            command@ == old_compose_command(
                self.compose_path(),
                seq!["run"@, "--rm"@, "runner"@],
                *tooling,
            ),
    {
        let command = self.compose(vec!["run", "--rm", "runner"], tooling);
        assert(command@.args =~= seq!["--file"@, self.compose_path()] + seq![
            "run"@,
            "--rm"@,
            "runner"@,
        ]);
        command
    }

    /// The command that stops the containers and removes them together
    /// with their volumes.
    pub fn stop(&self, tooling: &Tooling) -> (command: CommandPlan)
        ensures
            command@ == old_compose_command(
                self.compose_path(),
                seq!["rm"@, "--force"@, "--stop"@, "-v"@],
                *tooling,
            ),
    {
        let command = self.compose(vec!["rm", "--force", "--stop", "-v"], tooling);
        assert(command@.args =~= seq!["--file"@, self.compose_path()] + seq![
            "rm"@,
            "--force"@,
            "--stop"@,
            "-v"@,
        ]);
        command
    }

    /// The command that runs the compose tool with the arguments `args`.
    fn compose(&self, args: Vec<&'static str>, tooling: &Tooling) -> (command: CommandPlan)
        ensures
            command@ == old_compose_command(self.compose_path(), words(args@), *tooling),
    {
        let mut program = tooling.container_tool.clone();
        program.append("-compose");
        let mut all: Vec<String> = Vec::new();
        all.push("--file".to_string());
        all.push(self.compose_path.clone());
        let mut i: usize = 0;
        while i < args.len()
            invariant
                i <= args@.len(),
                all@.len() == i + 2,
                all@[0]@ == "--file"@,
                all@[1]@ == self.compose_path@,
                forall|j: int| 0 <= j < i ==> all@[j + 2]@ == args@[j]@,
            decreases args@.len() - i,
        {
            all.push(args[i].to_string());
            i += 1;
        }
        let mut env: Vec<(String, String)> = Vec::new();
        env.push(("RUST_VERSION".to_string(), tooling.rust_version.clone()));
        let command = CommandPlan { program, args: all, directory: tooling.root.clone(), env };
        proof {
            let wanted = old_compose_command(self.compose_path(), words(args@), *tooling);
            assert(command@.args.len() == wanted.args.len());
            assert forall|j: int| 0 <= j < wanted.args.len() implies command@.args[j]
                == wanted.args[j] by {
                if j >= 2 {
                    assert(all@[(j - 2) + 2]@ == args@[j - 2]@);
                }
            }
            assert(command@.args =~= wanted.args);
            assert(command@.env =~= wanted.env);
        }
        command
    }
}

/// The settings of an integration test.
#[derive(Debug, PartialEq)]
pub struct IntegrationTestConfig {
    /// What is added to the environment of every command.
    pub env: Option<Vec<(String, String)>>,
    /// The environments that the test can run in, by name.
    pub environments: Vec<(String, Environment)>,
}

/// Why a step of an integration test is refused.
#[derive(Clone, Copy, Debug, PartialEq, Eq, Structural)]
pub enum IntegrationError {
    /// The settings know no environment of the given name.
    UnknownEnvironment,
    /// The environment is up already.
    AlreadyUp,
    /// The environment is not up.
    NotUp,
}

/// One step of a test run.
#[derive(Clone, Copy, Debug, PartialEq, Eq, Structural)]
pub enum TestStep {
    /// Bring the environment up.
    Start,
    /// Run the tests.
    Test,
    /// Take the environment down.
    Stop,
}

/// What starting an environment takes: the command that brings it up, and
/// the settings to keep for the time that it is up.
#[derive(Debug, PartialEq)]
pub struct StartPlan {
    pub command: CommandPlan,
    pub settings: Environment,
}

/// The name of the variable that tells a command the network.
pub open spec fn network_variable() -> Seq<char> {
    "VECTOR_NETWORK"@
}

/// The text in capitals, as `str::to_uppercase` gives it.
pub uninterp spec fn uppercase_of(text: Seq<char>) -> Seq<char>;

/// The text in capitals.
///
/// Trusted: this is `str::to_uppercase` of the standard library, which
/// maps the characters by the tables of Unicode and so depends on the
/// text alone.
#[verifier::external_body]
fn to_uppercase(text: &str) -> (upper: String)
    ensures
        upper@ == uppercase_of(text@),
{
    text.to_uppercase()
}

/// The text with `_` in the place of each `-`.
pub open spec fn underscored(text: Seq<char>) -> Seq<char> {
    Seq::new(
        text.len(),
        |i: int|
            if text[i] == '-' {
                '_'
            } else {
                text[i]
            },
    )
}

/// The name of the variable that tells a command the version to test
/// against: the name of the integration in capitals, with `_` for `-`,
/// and `_VERSION` behind it.
pub open spec fn version_variable(integration: Seq<char>) -> Seq<char> {
    uppercase_of(underscored(integration)) + "_VERSION"@
}

/// The name, made of `integration`, of the variable that tells a command
/// the version to test against.
pub fn version_variable_name(integration: &str) -> (name: String)
    ensures
        name@ == version_variable(integration@),
{
    let mut replaced = String::new();
    for c in it: integration.chars()
        invariant
            it.seq() == integration@,
            replaced@ == underscored(it.seq().take(it.index@)),
    {
        let ghost done = it.seq().take(it.index@);
        let ghost next = it.seq().take(it.index@ + 1);
        if c == '-' {
            push_char(&mut replaced, '_');
        } else {
            push_char(&mut replaced, c);
        }
        assert(replaced@ =~= underscored(next));
    }
    proof {
        assert(integration@.take(integration@.len() as int) =~= integration@);
    }
    let mut name = to_uppercase(replaced.as_str());
    name.append("_VERSION");
    name
}

/// What a command of the compose tool adds to the environment: the
/// network, then what the settings of the test add, then the version if
/// the settings of the environment name one.
pub open spec fn compose_env(
    integration: Seq<char>,
    network: Seq<char>,
    added: Option<Vec<(String, String)>>,
    settings: Seq<(String, String)>,
) -> Seq<(Seq<char>, Seq<char>)> {
    let start = seq![(network_variable(), network)];
    let with_added = match added {
        Some(added) => start + pairs(added@),
        None => start,
    };
    match last_position(settings, "version"@) {
        Some(i) => with_added.push((version_variable(integration), settings[i].1@)),
        None => with_added,
    }
}

/// An integration test in one environment.
#[derive(Debug, PartialEq)]
pub struct IntegrationTest {
    integration: String,
    environment: String,
    test_dir: String,
    config: IntegrationTestConfig,
    network: String,
}

/// The mathematical content of an [`IntegrationTest`], apart from its
/// settings.
pub struct IntegrationTestView {
    pub integration: Seq<char>,
    pub environment: Seq<char>,
    pub test_dir: Seq<char>,
    pub network: Seq<char>,
}

impl View for IntegrationTest {
    type V = IntegrationTestView;

    closed spec fn view(&self) -> IntegrationTestView {
        IntegrationTestView {
            integration: self.integration@,
            environment: self.environment@,
            test_dir: self.test_dir@,
            network: self.network@,
        }
    }
}

impl IntegrationTest {
    /// The settings of the test.
    pub closed spec fn config(&self) -> IntegrationTestConfig {
        self.config
    }

    /// The settings of the environment of the test, where the settings
    /// of the test know it.
    pub open spec fn known_settings(&self) -> Option<Environment> {
        match last_position(self.config().environments@, self@.environment) {
            Some(i) => Some(self.config().environments@[i].1),
            None => None,
        }
    }

    /// The command that runs the compose tool on the file `compose_file`
    /// with the arguments `args`, in the directory of the test, for an
    /// environment with the settings `settings`.
    pub open spec fn compose_command(
        &self,
        args: Seq<Seq<char>>,
        settings: Seq<(String, String)>,
        compose_file: Seq<char>,
        container_tool: Seq<char>,
    ) -> CommandView {
        CommandView {
            program: container_tool + "-compose"@,
            args: seq!["--file"@, compose_file] + args,
            directory: self@.test_dir,
            env: compose_env(self@.integration, self@.network, self.config().env, settings),
        }
    }

    /// The test of the integration `integration` in the environment
    /// `environment`, with its directory, its settings and the name of
    /// its network.
    pub fn new(
        integration: String,
        environment: String,
        test_dir: String,
        config: IntegrationTestConfig,
        network: String,
    ) -> (test: IntegrationTest)
        ensures
            test@ == (IntegrationTestView {
                integration: integration@,
                environment: environment@,
                test_dir: test_dir@,
                network: network@,
            }),
            test.config() == config,
    {
        IntegrationTest { integration, environment, test_dir, config, network }
    }

    /// The name of the environment.
    pub fn environment(&self) -> (name: &str)
        ensures
            name@ == self@.environment,
    {
        self.environment.as_str()
    }

    /// The steps of a test run: the tests alone where the environment is
    /// up; else it is brought up before them and taken down after them.
    pub fn test(&self, active: bool) -> (steps: Vec<TestStep>)
        ensures
            steps@ == (if active {
                seq![TestStep::Test]
            } else {
                seq![TestStep::Start, TestStep::Test, TestStep::Stop]
            }),
    {
        let mut steps: Vec<TestStep> = Vec::new();
        if !active {
            steps.push(TestStep::Start);
        }
        steps.push(TestStep::Test);
        if !active {
            steps.push(TestStep::Stop);
        }
        steps
    }

    /// Where the settings of the environment stand in the settings of
    /// the test.
    fn known(&self) -> (found: Option<usize>)
        ensures
            match found {
                Some(i) => i < self.config().environments@.len() && self.known_settings() == Some(
                    self.config().environments@[i as int].1,
                ),
                None => self.known_settings() is None,
            },
    {
        position(&self.config.environments, self.environment.as_str())
    }

    /// A copy of the settings of an environment.
    fn copy_settings(settings: &Environment) -> (copy: Environment)
        ensures
            pairs(copy@) == pairs(settings@),
    {
        let mut copy: Environment = Vec::new();
        let mut i: usize = 0;
        while i < settings.len()
            invariant
                i <= settings@.len(),
                copy@.len() == i,
                forall|j: int|
                    0 <= j < i ==> copy@[j].0@ == settings@[j].0@ && copy@[j].1@
                        == settings@[j].1@,
            decreases settings@.len() - i,
        {
            copy.push((settings[i].0.clone(), settings[i].1.clone()));
            i += 1;
        }
        assert(pairs(copy@) =~= pairs(settings@));
        copy
    }

    /// What it takes to bring the environment up. An environment that the
    /// settings do not know is refused, and so is one that is up.
    pub fn start(&self, active: bool, compose_file: &str, container_tool: &str) -> (outcome:
        Result<StartPlan, IntegrationError>)
        ensures
            match outcome {
                Ok(plan) => {
                    &&& self.known_settings() is Some
                    &&& !active
                    &&& pairs(plan.settings@) == pairs(self.known_settings()->Some_0@)
                    &&& plan.command@ == self.compose_command(
                        seq!["up"@, "--detach"@],
                        self.known_settings()->Some_0@,
                        compose_file@,
                        container_tool@,
                    )
                },
                Err(error) => error == (if self.known_settings() is None {
                    IntegrationError::UnknownEnvironment
                } else {
                    IntegrationError::AlreadyUp
                }) && (self.known_settings() is None || active),
            },
    {
        let settings = match self.known() {
            Some(i) => &self.config.environments[i].1,
            None => {
                return Err(IntegrationError::UnknownEnvironment);
            },
        };
        if active {
            return Err(IntegrationError::AlreadyUp);
        }
        let command = self.run_compose(
            vec!["up", "--detach"],
            settings,
            compose_file,
            container_tool,
        );
        assert(words(seq!["up", "--detach"]) =~= seq!["up"@, "--detach"@]);
        Ok(StartPlan { command, settings: Self::copy_settings(settings) })
    }

    /// The command that takes the environment down at once. Its settings
    /// are those that were kept when it was brought up, `saved`; where
    /// none were kept it is not up, and then `force` takes the settings
    /// of the test in their place. Else the step is refused.
    pub fn stop(
        &self,
        force: bool,
        saved: Option<Environment>,
        compose_file: &str,
        container_tool: &str,
    ) -> (outcome: Result<CommandPlan, IntegrationError>)
        ensures
            match outcome {
                Ok(command) => match saved {
                    Some(saved) => command@ == self.compose_command(
                        seq!["down"@, "--timeout"@, "0"@],
                        saved@,
                        compose_file@,
                        container_tool@,
                    ),
                    None => force && self.known_settings() is Some && command@
                        == self.compose_command(
                        seq!["down"@, "--timeout"@, "0"@],
                        self.known_settings()->Some_0@,
                        compose_file@,
                        container_tool@,
                    ),
                },
                Err(error) => saved is None && error == (if !force {
                    IntegrationError::NotUp
                } else {
                    IntegrationError::UnknownEnvironment
                }) && (!force || self.known_settings() is None),
            },
    {
        assert(words(seq!["down", "--timeout", "0"]) =~= seq!["down"@, "--timeout"@, "0"@]);
        match &saved {
            Some(saved) => Ok(
                self.run_compose(
                    vec!["down", "--timeout", "0"],
                    saved,
                    compose_file,
                    container_tool,
                ),
            ),
            None => {
                if !force {
                    return Err(IntegrationError::NotUp);
                }
                match self.known() {
                    Some(i) => Ok(
                        self.run_compose(
                            vec!["down", "--timeout", "0"],
                            &self.config.environments[i].1,
                            compose_file,
                            container_tool,
                        ),
                    ),
                    None => Err(IntegrationError::UnknownEnvironment),
                }
            },
        }
    }

    /// The command that runs the compose tool on the file `compose_file`
    /// with the arguments `args`, for an environment with the settings
    /// `settings`.
    fn run_compose(
        &self,
        args: Vec<&'static str>,
        settings: &Environment,
        compose_file: &str,
        container_tool: &str,
    ) -> (command: CommandPlan)
        ensures
            command@ == self.compose_command(
                words(args@),
                settings@,
                compose_file@,
                container_tool@,
            ),
    {
        let mut program = container_tool.to_string();
        program.append("-compose");
        let mut all: Vec<String> = Vec::new();
        all.push("--file".to_string());
        all.push(compose_file.to_string());
        let mut i: usize = 0;
        while i < args.len()
            invariant
                i <= args@.len(),
                all@.len() == i + 2,
                all@[0]@ == "--file"@,
                all@[1]@ == compose_file@,
                forall|j: int| 0 <= j < i ==> all@[j + 2]@ == args@[j]@,
            decreases args@.len() - i,
        {
            all.push(args[i].to_string());
            i += 1;
        }
        let mut env: Vec<(String, String)> = Vec::new();
        env.push(("VECTOR_NETWORK".to_string(), self.network.clone()));
        let ghost start = pairs(env@);
        assert(start =~= seq![(network_variable(), self@.network)]);
        if let Some(added) = &self.config.env {
            let mut k: usize = 0;
            while k < added.len()
                invariant
                    k <= added@.len(),
                    env@.len() == k + 1,
                    pairs(env@).take(1) == start,
                    forall|j: int|
                        0 <= j < k ==> env@[j + 1].0@ == added@[j].0@ && env@[j + 1].1@
                            == added@[j].1@,
                decreases added@.len() - k,
            {
                env.push((added[k].0.clone(), added[k].1.clone()));
                assert(pairs(env@).take(1) =~= start);
                k += 1;
            }
            proof {
                let wanted = start + pairs(added@);
                assert(pairs(env@).len() == wanted.len());
                assert forall|j: int| 0 <= j < wanted.len() implies pairs(env@)[j]
                    == wanted[j] by {
                    if j >= 1 {
                        assert(env@[(j - 1) + 1].0@ == added@[j - 1].0@);
                    } else {
                        assert(pairs(env@).take(1)[0] == start[0]);
                    }
                }
                assert(pairs(env@) =~= wanted);
            }
        }
        let ghost with_added = pairs(env@);
        if let Some(at) = position(settings, "version") {
            let name = version_variable_name(self.integration.as_str());
            env.push((name, settings[at].1.clone()));
            assert(pairs(env@) =~= with_added.push(
                (version_variable(self@.integration), settings@[at as int].1@),
            ));
        }
        let command = CommandPlan { program, args: all, directory: self.test_dir.clone(), env };
        proof {
            let wanted = self.compose_command(
                words(args@),
                settings@,
                compose_file@,
                container_tool@,
            );
            assert(command@.args.len() == wanted.args.len());
            assert forall|j: int| 0 <= j < wanted.args.len() implies command@.args[j]
                == wanted.args[j] by {
                if j >= 2 {
                    assert(all@[(j - 2) + 2]@ == args@[j - 2]@);
                }
            }
            assert(command@.args =~= wanted.args);
        }
        command
    }
}

} // verus!
