//! The privileged commands that apply the setup, as plans: each command is
//! run through `sudo`, in order, and the first failure stops the setup.

use vstd::prelude::*;
use vstd::string::*;
use crate::progress::{ProgressView, SetupProgress};
use crate::text::{push_char, string_from, views};

verus! {

/// One privileged command: the program, its arguments, and the text it
/// reads on standard input, if any.
pub struct SudoCommand {
    pub program: String,
    pub args: Vec<String>,
    pub input: Option<String>,
}

/// A privileged command as values.
pub struct CommandView {
    pub program: Seq<char>,
    pub args: Seq<Seq<char>>,
    pub input: Option<Seq<char>>,
}

impl View for SudoCommand {
    type V = CommandView;

    open spec fn view(&self) -> CommandView {
        CommandView {
            program: self.program@,
            args: views(self.args@),
            input: match self.input {
                Some(s) => Some(s@),
                None => None,
            },
        }
    }
}

/// The views of a sequence of commands.
pub open spec fn command_views(v: Seq<SudoCommand>) -> Seq<CommandView> {
    v.map_values(|c: SudoCommand| c@)
}

/// A command that reads nothing on standard input.
pub open spec fn command(program: Seq<char>, args: Seq<Seq<char>>) -> CommandView {
    CommandView { program, args, input: None }
}

/// Naming the system.
pub open spec fn set_hostname_command(hostname: Seq<char>) -> CommandView {
    command("/usr/bin/hostnamectl"@, seq!["set-hostname"@, hostname])
}

/// Creating the permanent account: a home directory, the groups `uucp`,
/// `wheel`, `kvm` and `libvirt`, Zsh, and the display name as its full name.
pub open spec fn create_user_command(display_name: Seq<char>, username: Seq<char>) -> CommandView {
    command(
        "/usr/bin/useradd"@,
        seq![
            "-m"@,
            "-G"@,
            "uucp,wheel,kvm,libvirt"@,
            "-s"@,
            "/bin/zsh"@,
            "-c"@,
            display_name,
            username,
        ],
    )
}

/// The home directory of `username`.
pub open spec fn home_of(username: Seq<char>) -> Seq<char> {
    "/home/"@ + username
}

/// Setting up the permanent account: virtual machines may use its home
/// directory, the Flatpak Virtual Machine Manager may see home directories,
/// Dolphin's home points at it, its Trash entry belongs to root, and its
/// password is set (the password goes on standard input).
pub open spec fn configure_commands(username: Seq<char>, password: Seq<char>) -> Seq<CommandView> {
    seq![
        command("/usr/bin/setfacl"@, seq!["-m"@, "u:libvirt-qemu:rwx"@, home_of(username)]),
        command(
            "/usr/bin/flatpak"@,
            seq!["override"@, "--filesystem=home"@, "org.virt_manager.virt-manager"@],
        ),
        command(
            "/usr/bin/sed"@,
            seq![
                "-i"@,
                "s|^HomeUrl=/home/|HomeUrl="@ + home_of(username) + seq!['/', '|'],
                home_of(username) + "/.config/dolphinrc"@,
            ],
        ),
        command(
            "/usr/bin/chown"@,
            seq!["root:root"@, home_of(username) + "/Desktop/trash:⁄.desktop"@],
        ),
        CommandView {
            program: "/usr/bin/chpasswd"@,
            args: seq![],
            input: Some(username + seq![':'] + password + seq!['\n']),
        },
    ]
}

fn home_dir(username: &str) -> (h: String)
    ensures
        h@ == home_of(username@),
{
    let mut h = string_from("/home/");
    h.append(username);
    h
}

fn run(program: &str, args: Vec<String>) -> (c: SudoCommand)
    ensures
        c@ == command(program@, views(args@)),
{
    SudoCommand { program: string_from(program), args, input: None }
}

/// The command that names the system.
pub fn set_hostname_command_for(hostname: &str) -> (c: SudoCommand)
    ensures
        c@ == set_hostname_command(hostname@),
{
    let mut args: Vec<String> = Vec::new();
    args.push(string_from("set-hostname"));
    args.push(string_from(hostname));
    let c = run("/usr/bin/hostnamectl", args);
    assert(c@.args =~= seq!["set-hostname"@, hostname@]);
    c
}

/// The command that creates the permanent account.
pub fn create_permanent_user(display_name: &str, username: &str) -> (c: SudoCommand)
    ensures
        c@ == create_user_command(display_name@, username@),
{
    let mut args: Vec<String> = Vec::new();
    args.push(string_from("-m"));
    args.push(string_from("-G"));
    args.push(string_from("uucp,wheel,kvm,libvirt"));
    args.push(string_from("-s"));
    args.push(string_from("/bin/zsh"));
    args.push(string_from("-c"));
    args.push(string_from(display_name));
    args.push(string_from(username));
    let c = run("/usr/bin/useradd", args);
    assert(c@.args =~= create_user_command(display_name@, username@).args);
    c
}

/// The commands that set up the permanent account and its password.
pub fn configure_permanent_user(username: &str, password: &str) -> (v: Vec<SudoCommand>)
    ensures
        command_views(v@) == configure_commands(username@, password@),
{
    let home = home_dir(username);
    let mut v: Vec<SudoCommand> = Vec::new();

    let mut args: Vec<String> = Vec::new();
    args.push(string_from("-m"));
    args.push(string_from("u:libvirt-qemu:rwx"));
    args.push(string_from(home.as_str()));
    let c = run("/usr/bin/setfacl", args);
    assert(c@.args =~= seq!["-m"@, "u:libvirt-qemu:rwx"@, home_of(username@)]);
    v.push(c);

    let mut args: Vec<String> = Vec::new();
    args.push(string_from("override"));
    args.push(string_from("--filesystem=home"));
    args.push(string_from("org.virt_manager.virt-manager"));
    let c = run("/usr/bin/flatpak", args);
    assert(c@.args =~= seq!["override"@, "--filesystem=home"@, "org.virt_manager.virt-manager"@]);
    v.push(c);

    let mut home_url = string_from("s|^HomeUrl=/home/|HomeUrl=");
    home_url.append(home.as_str());
    push_char(&mut home_url, '/');
    push_char(&mut home_url, '|');
    let mut dolphinrc = string_from(home.as_str());
    dolphinrc.append("/.config/dolphinrc");
    let mut args: Vec<String> = Vec::new();
    args.push(string_from("-i"));
    args.push(home_url);
    args.push(dolphinrc);
    let c = run("/usr/bin/sed", args);
    assert(home_url@ =~= "s|^HomeUrl=/home/|HomeUrl="@ + home_of(username@) + seq!['/', '|']);
    assert(c@.args =~= configure_commands(username@, password@)[2].args);
    v.push(c);

    let mut trash_entry = string_from(home.as_str());
    trash_entry.append("/Desktop/trash:⁄.desktop");
    let mut args: Vec<String> = Vec::new();
    args.push(string_from("root:root"));
    args.push(trash_entry);
    let c = run("/usr/bin/chown", args);
    assert(c@.args =~= configure_commands(username@, password@)[3].args);
    v.push(c);

    let mut chpasswd_input = string_from(username);
    push_char(&mut chpasswd_input, ':');
    chpasswd_input.append(password);
    push_char(&mut chpasswd_input, '\n');
    let c = SudoCommand {
        program: string_from("/usr/bin/chpasswd"),
        args: Vec::new(),
        input: Some(chpasswd_input),
    };
    assert(c@.args =~= Seq::<Seq<char>>::empty());
    assert(c@.input == Some(username@ + seq![':'] + password@ + seq!['\n']));
    v.push(c);

    assert(command_views(v@) =~= configure_commands(username@, password@));
    v
}

/// The commands of the terminal setup: name the system, create the
/// account, set it up.
pub open spec fn terminal_setup_commands(
    hostname: Seq<char>,
    display_name: Seq<char>,
    username: Seq<char>,
    password: Seq<char>,
) -> Seq<CommandView> {
    seq![set_hostname_command(hostname), create_user_command(display_name, username)]
        + configure_commands(username, password)
}

/// The commands that apply the terminal setup, in order.
pub fn apply_settings(hostname: &str, display_name: &str, username: &str, password: &str) -> (v:
    Vec<SudoCommand>)
    ensures
        command_views(v@) == terminal_setup_commands(
            hostname@,
            display_name@,
            username@,
            password@,
        ),
{
    let mut v: Vec<SudoCommand> = Vec::new();
    v.push(set_hostname_command_for(hostname));
    v.push(create_permanent_user(display_name, username));
    let rest = configure_permanent_user(username, password);
    let mut i: usize = 0;
    let ghost head = command_views(v@);
    while i < rest.len()
        invariant
            i <= rest@.len(),
            command_views(v@) == head + command_views(rest@).take(i as int),
        decreases rest.len() - i,
    {
        let c = SudoCommand {
            program: string_from(rest[i].program.as_str()),
            args: copy_args(&rest[i].args),
            input: match &rest[i].input {
                Some(s) => Some(string_from(s.as_str())),
                None => None,
            },
        };
        assert(c@ == command_views(rest@)[i as int]);
        let ghost before = command_views(v@);
        v.push(c);
        assert(command_views(v@) =~= before.push(command_views(rest@)[i as int]));
        i = i + 1;
        assert(command_views(v@) =~= head + command_views(rest@).take(i as int));
    }
    assert(command_views(rest@).take(rest@.len() as int) =~= command_views(rest@));
    assert(command_views(v@) =~= terminal_setup_commands(
        hostname@,
        display_name@,
        username@,
        password@,
    ));
    v
}

fn copy_args(args: &Vec<String>) -> (r: Vec<String>)
    ensures
        views(r@) == views(args@),
{
    let mut r: Vec<String> = Vec::new();
    let mut i: usize = 0;
    while i < args.len()
        invariant
            i <= args@.len(),
            views(r@) == views(args@).take(i as int),
        decreases args.len() - i,
    {
        let ghost before = views(r@);
        r.push(string_from(args[i].as_str()));
        assert(views(r@) =~= before.push(args@[i as int]@));
        i = i + 1;
        assert(views(r@) =~= views(args@).take(i as int));
    }
    assert(views(args@).take(args@.len() as int) =~= views(args@));
    r
}

/// One step of the setup that the interface asked for.
pub enum ApplyStep {
    /// Run a privileged command; a failure stops the setup.
    Run(SudoCommand),
    /// Stop the setup with this message.
    Stop(String),
    /// Write this recovery record; a failure stops the setup.
    RecordAccount(SetupProgress),
}

/// A setup step as values.
pub enum StepView {
    Run(CommandView),
    Stop(Seq<char>),
    RecordAccount(ProgressView),
}

impl View for ApplyStep {
    type V = StepView;

    open spec fn view(&self) -> StepView {
        match self {
            ApplyStep::Run(c) => StepView::Run(c@),
            ApplyStep::Stop(m) => StepView::Stop(m@),
            ApplyStep::RecordAccount(p) => StepView::RecordAccount(p@),
        }
    }
}

/// The views of a sequence of steps.
pub open spec fn step_views(v: Seq<ApplyStep>) -> Seq<StepView> {
    v.map_values(|s: ApplyStep| s@)
}

/// The recovery record written once the account exists: the progress page,
/// the details, and the account marked as created.
pub open spec fn created_account_record(
    hostname: Seq<char>,
    display_name: Seq<char>,
    username: Seq<char>,
) -> ProgressView {
    ProgressView { page: 2, hostname, display_name, username, account_created: true }
}

/// The setup that the interface asked for, given whether an account named
/// `username` exists and whether it is the account that setup creates: name
/// the system; then reuse the account where it is setup's own, stop where it
/// belongs to someone else (it is never modified), or create it; record that
/// it exists; set it up.
pub open spec fn interface_setup_steps(
    hostname: Seq<char>,
    display_name: Seq<char>,
    username: Seq<char>,
    password: Seq<char>,
    account_exists: bool,
    account_matches: bool,
) -> Seq<StepView> {
    let name = seq![StepView::Run(set_hostname_command(hostname))];
    if account_exists && !account_matches {
        name + seq![
            StepView::Stop(
                "The reserved account name now belongs to a different system account. FluffSetup will not modify it."@,
            ),
        ]
    } else {
        let create = if account_exists {
            seq![]
        } else {
            seq![StepView::Run(create_user_command(display_name, username))]
        };
        name + create + seq![
            StepView::RecordAccount(created_account_record(hostname, display_name, username)),
        ] + configure_commands(username, password).map_values(|c: CommandView| StepView::Run(c))
    }
}

/// The steps of the setup that the interface asked for, in order.
pub fn apply_gui_settings(
    hostname: &str,
    display_name: &str,
    username: &str,
    password: &str,
    account_exists: bool,
    account_matches: bool,
) -> (v: Vec<ApplyStep>)
    ensures
        step_views(v@) == interface_setup_steps(
            hostname@,
            display_name@,
            username@,
            password@,
            account_exists,
            account_matches,
        ),
{
    let mut v: Vec<ApplyStep> = Vec::new();
    v.push(ApplyStep::Run(set_hostname_command_for(hostname)));
    if account_exists && !account_matches {
        v.push(
            ApplyStep::Stop(
                string_from(
                    "The reserved account name now belongs to a different system account. FluffSetup will not modify it.",
                ),
            ),
        );
        assert(step_views(v@) =~= interface_setup_steps(
            hostname@,
            display_name@,
            username@,
            password@,
            account_exists,
            account_matches,
        ));
        return v;
    }
    if !account_exists {
        v.push(ApplyStep::Run(create_permanent_user(display_name, username)));
    }
    v.push(
        ApplyStep::RecordAccount(
            SetupProgress {
                page: 2,
                hostname: string_from(hostname),
                display_name: string_from(display_name),
                username: string_from(username),
                account_created: true,
            },
        ),
    );
    let ghost head = step_views(v@);
    let rest = configure_permanent_user(username, password);
    let ghost tail = configure_commands(username@, password@).map_values(
        |c: CommandView| StepView::Run(c),
    );
    let mut i: usize = 0;
    while i < rest.len()
        invariant
            i <= rest@.len(),
            command_views(rest@) == configure_commands(username@, password@),
            tail == configure_commands(username@, password@).map_values(
                |c: CommandView| StepView::Run(c),
            ),
            step_views(v@) == head + tail.take(i as int),
        decreases rest.len() - i,
    {
        let c = SudoCommand {
            program: string_from(rest[i].program.as_str()),
            args: copy_args(&rest[i].args),
            input: match &rest[i].input {
                Some(s) => Some(string_from(s.as_str())),
                None => None,
            },
        };
        assert(c@ == command_views(rest@)[i as int]);
        let ghost before = step_views(v@);
        v.push(ApplyStep::Run(c));
        assert(step_views(v@) =~= before.push(tail[i as int]));
        i = i + 1;
        assert(step_views(v@) =~= head + tail.take(i as int));
    }
    assert(tail.take(rest@.len() as int) =~= tail);
    assert(step_views(v@) =~= interface_setup_steps(
        hostname@,
        display_name@,
        username@,
        password@,
        account_exists,
        account_matches,
    ));
    v
}

/// An existing account that is not setup's own is never modified: the
/// system is named, then setup stops.
pub proof fn lemma_foreign_account_plan(
    hostname: Seq<char>,
    display_name: Seq<char>,
    username: Seq<char>,
    password: Seq<char>,
)
    ensures
        interface_setup_steps(hostname, display_name, username, password, true, false) == seq![
            StepView::Run(set_hostname_command(hostname)),
            StepView::Stop(
                "The reserved account name now belongs to a different system account. FluffSetup will not modify it."@,
            ),
        ],
{
    assert(interface_setup_steps(hostname, display_name, username, password, true, false) =~= seq![
        StepView::Run(set_hostname_command(hostname)),
        StepView::Stop(
            "The reserved account name now belongs to a different system account. FluffSetup will not modify it."@,
        ),
    ]);
}

/// Setup's own account, found already created after an interruption, is
/// reused: it is not created a second time.
pub proof fn lemma_existing_account_not_recreated(
    hostname: Seq<char>,
    display_name: Seq<char>,
    username: Seq<char>,
    password: Seq<char>,
)
    ensures
        forall|i: int|
            0 <= i < interface_setup_steps(
                hostname,
                display_name,
                username,
                password,
                true,
                true,
            ).len() ==> #[trigger] interface_setup_steps(
                hostname,
                display_name,
                username,
                password,
                true,
                true,
            )[i] != StepView::Run(create_user_command(display_name, username)),
{
    let steps = interface_setup_steps(hostname, display_name, username, password, true, true);
    reveal_strlit("/usr/bin/hostnamectl");
    reveal_strlit("/usr/bin/useradd");
    reveal_strlit("/usr/bin/setfacl");
    reveal_strlit("/usr/bin/flatpak");
    reveal_strlit("/usr/bin/sed");
    reveal_strlit("/usr/bin/chown");
    reveal_strlit("/usr/bin/chpasswd");
    let tail = configure_commands(username, password).map_values(
        |c: CommandView| StepView::Run(c),
    );
    assert forall|i: int| 0 <= i < steps.len() implies #[trigger] steps[i] != StepView::Run(
        create_user_command(display_name, username),
    ) by {
        if i >= 2 {
            assert(steps[i] == tail[i - 2]);
            let program = configure_commands(username, password)[i - 2].program;
            assert(program[9] != 'u');
            assert("/usr/bin/useradd"@[9] == 'u');
        } else if i == 0 {
            assert("/usr/bin/hostnamectl"@[9] == 'h');
            assert("/usr/bin/useradd"@[9] == 'u');
        }
    }
}

/// The terminal plan sets the entered password and nothing else from it:
/// seven commands, the last one `chpasswd` reading exactly
/// `username:password` and a line break; every command before it reads
/// nothing, and is the same whatever the password; the system name and the
/// account's full name and login name are the ones given.
pub proof fn lemma_terminal_plan_sets_entered_password(
    hostname: Seq<char>,
    display_name: Seq<char>,
    username: Seq<char>,
    password: Seq<char>,
    other_password: Seq<char>,
)
    ensures
        ({
            let plan = terminal_setup_commands(hostname, display_name, username, password);
            let other = terminal_setup_commands(hostname, display_name, username, other_password);
            &&& plan.len() == 7
            &&& plan[6].program == "/usr/bin/chpasswd"@
            &&& plan[6].args.len() == 0
            &&& plan[6].input == Some(username + seq![':'] + password + seq!['\n'])
            &&& forall|i: int| 0 <= i < 6 ==> (#[trigger] plan[i]).input is None
            &&& plan.take(6) == other.take(6)
            &&& plan[0].args == seq!["set-hostname"@, hostname]
            &&& plan[1].args.len() == 8
            &&& plan[1].args[6] == display_name
            &&& plan[1].args[7] == username
        }),
{
    let plan = terminal_setup_commands(hostname, display_name, username, password);
    let other = terminal_setup_commands(hostname, display_name, username, other_password);
    assert(plan.take(6) =~= other.take(6));
}

} // verus!
