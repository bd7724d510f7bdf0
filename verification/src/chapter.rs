//! Per-chapter build text: the classified file buckets (`MakeVar`), the
//! compile targets (`Command`, `Commands`), and the full chapter build file
//! text they render to.

use vstd::prelude::*;
use vstd::string::*;
use crate::classify::{Category, spec_classify, classify};
use crate::text::{contains_seq, contains_substring, join_with, join_strings};

verus! {

/// How a Zig entry is built: as an executable, as a test, or as a project
/// directory with its own build description.
#[derive(Clone, Copy, PartialEq, Eq, Structural, Debug)]
pub enum ZigType {
    Bin,
    Test,
    Proj,
}

/// A classified Zig entry: its file name and how it is built.
pub struct Zig {
    pub file: String,
    pub ty: ZigType,
}

/// The mathematical value of a `Zig`.
#[verifier::ext_equal]
pub ghost struct ZigV {
    pub file: Seq<char>,
    pub ty: ZigType,
}

impl View for Zig {
    type V = ZigV;

    open spec fn view(&self) -> ZigV {
        ZigV { file: self.file@, ty: self.ty }
    }
}

impl DeepView for Zig {
    type V = ZigV;

    open spec fn deep_view(&self) -> ZigV {
        self@
    }
}

/// How a plain `.zig` file or directory is built.
pub open spec fn spec_zig_type(is_dir: bool, content: Seq<char>) -> ZigType {
    if is_dir {
        ZigType::Proj
    } else if contains_seq(content, "main"@) {
        ZigType::Bin
    } else {
        ZigType::Test
    }
}

impl Zig {
    /// Classifies a Zig entry from its directory status and text content.
    pub fn new(file_name: &str, is_dir: bool, content: &str) -> (z: Zig)
        ensures
            z@ == (ZigV { file: file_name@, ty: spec_zig_type(is_dir, content@) }),
    {
        let ty = if is_dir {
            ZigType::Proj
        } else if contains_substring(content, "main") {
            ZigType::Bin
        } else {
            ZigType::Test
        };
        Zig { file: String::from_str(file_name), ty }
    }
}

/// The per-chapter buckets of classified file names.
pub struct MakeVar {
    pub c: Vec<String>,
    pub cpp: Vec<String>,
    pub rs: Vec<String>,
    pub zig: Vec<Zig>,
}

/// The mathematical value of a `MakeVar`.
#[verifier::ext_equal]
pub ghost struct MakeVarV {
    pub c: Seq<Seq<char>>,
    pub cpp: Seq<Seq<char>>,
    pub rs: Seq<Seq<char>>,
    pub zig: Seq<ZigV>,
}

impl View for MakeVar {
    type V = MakeVarV;

    open spec fn view(&self) -> MakeVarV {
        MakeVarV {
            c: self.c.deep_view(),
            cpp: self.cpp.deep_view(),
            rs: self.rs.deep_view(),
            zig: self.zig.deep_view(),
        }
    }
}

/// An empty set of buckets.
pub open spec fn spec_empty_make_var() -> MakeVarV {
    MakeVarV { c: Seq::empty(), cpp: Seq::empty(), rs: Seq::empty(), zig: Seq::empty() }
}

/// How one classified directory entry extends the buckets: the entry's name
/// goes to the bucket its classification names, and an entry that classifies
/// to nothing leaves every bucket unchanged.
pub open spec fn spec_add_entry(
    m: MakeVarV,
    name: Seq<char>,
    is_dir: bool,
    content: Seq<char>,
) -> MakeVarV {
    match spec_classify(name, is_dir, content) {
        Option::None => m,
        Option::Some(cat) => match cat {
            Category::C => MakeVarV { c: m.c.push(name), cpp: m.cpp, rs: m.rs, zig: m.zig },
            Category::Cpp => MakeVarV { c: m.c, cpp: m.cpp.push(name), rs: m.rs, zig: m.zig },
            Category::Rust => MakeVarV { c: m.c, cpp: m.cpp, rs: m.rs.push(name), zig: m.zig },
            Category::ZigBin => MakeVarV {
                c: m.c,
                cpp: m.cpp,
                rs: m.rs,
                zig: m.zig.push(ZigV { file: name, ty: ZigType::Bin }),
            },
            Category::ZigTest => MakeVarV {
                c: m.c,
                cpp: m.cpp,
                rs: m.rs,
                zig: m.zig.push(ZigV { file: name, ty: ZigType::Test }),
            },
            Category::ZigProj => MakeVarV {
                c: m.c,
                cpp: m.cpp,
                rs: m.rs,
                zig: m.zig.push(ZigV { file: name, ty: ZigType::Proj }),
            },
        },
    }
}

/// How one entry of the `exercises` subdirectory extends the buckets: an
/// entry whose name mentions `zig` joins the Zig bucket under an
/// `exercises/`-prefixed name; any other entry is ignored.
pub open spec fn spec_add_exercise_entry(
    m: MakeVarV,
    name: Seq<char>,
    is_dir: bool,
    content: Seq<char>,
) -> MakeVarV {
    if contains_seq(name, "zig"@) {
        MakeVarV {
            c: m.c,
            cpp: m.cpp,
            rs: m.rs,
            zig: m.zig.push(
                ZigV { file: "exercises/"@ + name, ty: spec_zig_type(is_dir, content) },
            ),
        }
    } else {
        m
    }
}

/// The names of the Zig entries of kind `ty`, in bucket order.
pub open spec fn zig_files(zs: Seq<ZigV>, ty: ZigType) -> Seq<Seq<char>>
    decreases zs.len(),
{
    if zs.len() == 0 {
        Seq::empty()
    } else {
        let rest = zig_files(zs.drop_last(), ty);
        if zs.last().ty == ty {
            rest.push(zs.last().file)
        } else {
            rest
        }
    }
}

/// A variable line's text, without its newline: the variable name, ` = `,
/// and the space-joined file names.
pub open spec fn var_line_text(name: Seq<char>, files: Seq<Seq<char>>) -> Seq<char> {
    name + " = "@ + join_with(files, " "@)
}

/// A variable line: the variable name, ` = `, the space-joined file names,
/// and a newline.
pub open spec fn bucket_line(name: Seq<char>, files: Seq<Seq<char>>) -> Seq<char> {
    var_line_text(name, files) + "\n"@
}

/// A bucket's emitted lines: one line when the bucket is non-empty, none
/// when it is empty.
pub open spec fn bucket_segment(name: Seq<char>, files: Seq<Seq<char>>) -> Seq<Seq<char>> {
    if files.len() == 0 {
        Seq::empty()
    } else {
        seq![var_line_text(name, files)]
    }
}

/// All variable lines a chapter emits, in the fixed bucket order.
pub open spec fn var_line_list(m: MakeVarV) -> Seq<Seq<char>> {
    bucket_segment("C_FILES"@, m.c) + bucket_segment("CPP_FILES"@, m.cpp) + bucket_segment(
        "RS_FILES"@,
        m.rs,
    ) + bucket_segment("ZIG_EXE_FILES"@, zig_files(m.zig, ZigType::Bin)) + bucket_segment(
        "ZIG_TEST_FILES"@,
        zig_files(m.zig, ZigType::Test),
    ) + bucket_segment("ZIG_PROJ_FILES"@, zig_files(m.zig, ZigType::Proj))
}

/// A bucket's contribution to the variable block: one line when the bucket
/// is non-empty, nothing when it is empty.
pub open spec fn maybe_bucket_line(name: Seq<char>, files: Seq<Seq<char>>) -> Seq<char> {
    if files.len() == 0 {
        Seq::empty()
    } else {
        bucket_line(name, files)
    }
}

/// The whole variable block of a chapter, in the fixed bucket order.
pub open spec fn spec_var_block(m: MakeVarV) -> Seq<char> {
    maybe_bucket_line("C_FILES"@, m.c) + maybe_bucket_line("CPP_FILES"@, m.cpp)
        + maybe_bucket_line("RS_FILES"@, m.rs) + maybe_bucket_line(
        "ZIG_EXE_FILES"@,
        zig_files(m.zig, ZigType::Bin),
    ) + maybe_bucket_line("ZIG_TEST_FILES"@, zig_files(m.zig, ZigType::Test))
        + maybe_bucket_line("ZIG_PROJ_FILES"@, zig_files(m.zig, ZigType::Proj))
}

/// Collects the file names of the Zig entries of kind `ty`.
fn zig_bucket(zs: &Vec<Zig>, ty: ZigType) -> (r: Vec<String>)
    ensures
        r.deep_view() == zig_files(zs.deep_view(), ty),
{
    let mut r: Vec<String> = Vec::new();
    let mut k: usize = 0;
    while k < zs.len()
        invariant
            k <= zs.len(),
            zs.deep_view().len() == zs.len(),
            r.deep_view() == zig_files(zs.deep_view().take(k as int), ty),
        decreases zs.len() - k,
    {
        let ghost pre = r.deep_view();
        if zs[k].ty == ty {
            r.push(zs[k].file.clone());
            proof {
                assert(r.deep_view() =~= pre.push(zs.deep_view()[k as int].file));
            }
        }
        proof {
            let dv = zs.deep_view();
            assert(dv.take(k + 1).drop_last() =~= dv.take(k as int));
            assert(dv.take(k + 1).last() == dv[k as int]);
        }
        k += 1;
    }
    proof {
        assert(zs.deep_view().take(zs.len() as int) =~= zs.deep_view());
    }
    r
}

/// Appends one bucket's variable line to `out`, or nothing for an empty
/// bucket.
fn append_bucket(out: &mut String, name: &str, files: &Vec<String>)
    ensures
        final(out)@ == old(out)@ + maybe_bucket_line(name@, files.deep_view()),
{
    if files.len() > 0 {
        out.append(name);
        out.append(" = ");
        let joined = join_strings(files, " ");
        out.append(joined.as_str());
        out.append("\n");
    } else {
        assert(old(out)@ + maybe_bucket_line(name@, files.deep_view()) =~= old(out)@);
    }
}

impl MakeVar {
    /// Empty buckets for a fresh chapter scan.
    pub fn new() -> (r: MakeVar)
        ensures
            r@ == spec_empty_make_var(),
    {
        let r = MakeVar { c: Vec::new(), cpp: Vec::new(), rs: Vec::new(), zig: Vec::new() };
        proof {
            assert(r@ =~= spec_empty_make_var());
        }
        r
    }

    /// Classifies one directory entry into its bucket. `content` is only
    /// consulted for plain `.zig` files; pass an empty string otherwise.
    pub fn add_entry(&mut self, name: &str, is_dir: bool, content: &str)
        ensures
            final(self)@ == spec_add_entry(old(self)@, name@, is_dir, content@),
    {
        let ghost pre = self@;
        match classify(name, is_dir, content) {
            Option::None => {
                assert(self@ =~= spec_add_entry(pre, name@, is_dir, content@));
            },
            Option::Some(cat) => {
                match cat {
                    Category::C => self.c.push(String::from_str(name)),
                    Category::Cpp => self.cpp.push(String::from_str(name)),
                    Category::Rust => self.rs.push(String::from_str(name)),
                    Category::ZigBin | Category::ZigTest | Category::ZigProj => {
                        self.zig.push(Zig::new(name, is_dir, content));
                    },
                }
                proof {
                    assert(self@ =~= spec_add_entry(pre, name@, is_dir, content@));
                }
            },
        }
    }

    /// Adds one entry of the `exercises` subdirectory: names mentioning
    /// `zig` join the Zig bucket under an `exercises/`-prefixed path.
    pub fn add_exercise_entry(&mut self, name: &str, is_dir: bool, content: &str)
        ensures
            final(self)@ == spec_add_exercise_entry(old(self)@, name@, is_dir, content@),
    {
        let ghost pre = self@;
        if contains_substring(name, "zig") {
            let mut path = String::from_str("exercises/");
            path.append(name);
            let z = Zig::new(path.as_str(), is_dir, content);
            self.zig.push(z);
            proof {
                assert(self@ =~= spec_add_exercise_entry(pre, name@, is_dir, content@));
            }
        }
    }

    /// Whether the exercises scan will need the entry's text content.
    pub fn exercise_needs_content(name: &str, is_dir: bool) -> (b: bool)
        ensures
            b == (contains_seq(name@, "zig"@) && !is_dir),
    {
        !is_dir && contains_substring(name, "zig")
    }

    /// Renders the variable block: one `NAME = files` line per non-empty
    /// bucket, in the fixed bucket order; empty buckets emit nothing.
    pub fn to_string(&self) -> (r: String)
        ensures
            r@ == spec_var_block(self@),
    {
        let mut r = String::new();
        append_bucket(&mut r, "C_FILES", &self.c);
        append_bucket(&mut r, "CPP_FILES", &self.cpp);
        append_bucket(&mut r, "RS_FILES", &self.rs);
        let bins = zig_bucket(&self.zig, ZigType::Bin);
        append_bucket(&mut r, "ZIG_EXE_FILES", &bins);
        let tests = zig_bucket(&self.zig, ZigType::Test);
        append_bucket(&mut r, "ZIG_TEST_FILES", &tests);
        let projs = zig_bucket(&self.zig, ZigType::Proj);
        append_bucket(&mut r, "ZIG_PROJ_FILES", &projs);
        proof {
            assert(r@ =~= spec_var_block(self@));
        }
        r
    }
}


/// A compile target: its header line (name and colon) and its tab-indented
/// recipe text.
pub struct Command {
    pub command: String,
    pub arg: String,
}

/// The mathematical value of a `Command`.
#[verifier::ext_equal]
pub ghost struct CommandV {
    pub command: Seq<char>,
    pub arg: Seq<char>,
}

impl View for Command {
    type V = CommandV;

    open spec fn view(&self) -> CommandV {
        CommandV { command: self.command@, arg: self.arg@ }
    }
}

impl DeepView for Command {
    type V = CommandV;

    open spec fn deep_view(&self) -> CommandV {
        self@
    }
}

/// The fixed C compile target.
pub open spec fn c_command() -> CommandV {
    CommandV {
        command: "compile_c: "@,
        arg: "\t$(foreach file, $(C_FILES), \\\n\t\t$(eval out=$(patsubst %.c,%_c,$(file))) \\\n\t\t$(CC) $(file) -o $(out);)"@,
    }
}

/// The fixed C++ compile target.
pub open spec fn cpp_command() -> CommandV {
    CommandV {
        command: "compile_cpp: "@,
        arg: "\t$(foreach file, $(CPP_FILES), \\\n\t\t$(eval out=$(patsubst %.cpp,%_cpp,$(file))) \\\n\t\t$(CC+) $(file) -o $(out);)"@,
    }
}

/// The fixed Rust compile target.
pub open spec fn rust_command() -> CommandV {
    CommandV {
        command: "compile_rs: "@,
        arg: "\t$(foreach file, $(RS_FILES), \\\n\t\t$(eval out=$(patsubst %.rs,%_rs,$(file))) \\\n\t\t$(RUSTC) $(file) -o $(out);)"@,
    }
}

/// The fixed Zig compile target: three loops, one per Zig kind; a loop over
/// an empty list is a no-op, so the target is emitted whole whenever any Zig
/// entry exists.
pub open spec fn zig_command() -> CommandV {
    CommandV {
        command: "compile_zig: "@,
        arg: "\t$(foreach file, $(ZIG_EXE), \\\n\t\tzig build-exe $(file);)\n\t$(foreach file, $(ZIG_TEST), \\\n\t\tzig test $(file);)\n\t$(foreach proj, $(ZIG_PROJS), \\\n\t\tcd $(proj) && zig build;)"@,
    }
}

/// A target's full text: header line, newline, recipe.
pub open spec fn command_text(c: CommandV) -> Seq<char> {
    c.command + "\n"@ + c.arg
}

/// The full text of each target, in order.
pub open spec fn command_texts(cs: Seq<CommandV>) -> Seq<Seq<char>> {
    cs.map_values(|c: CommandV| command_text(c))
}

impl Command {
    /// The Rust compile target.
    pub fn rust() -> (r: Command)
        ensures
            r@ == rust_command(),
    {
        Command {
            command: String::from_str("compile_rs: "),
            arg: String::from_str(
                "\t$(foreach file, $(RS_FILES), \\\n\t\t$(eval out=$(patsubst %.rs,%_rs,$(file))) \\\n\t\t$(RUSTC) $(file) -o $(out);)",
            ),
        }
    }

    /// The C compile target.
    pub fn c() -> (r: Command)
        ensures
            r@ == c_command(),
    {
        Command {
            command: String::from_str("compile_c: "),
            arg: String::from_str(
                "\t$(foreach file, $(C_FILES), \\\n\t\t$(eval out=$(patsubst %.c,%_c,$(file))) \\\n\t\t$(CC) $(file) -o $(out);)",
            ),
        }
    }

    /// The C++ compile target.
    pub fn cpp() -> (r: Command)
        ensures
            r@ == cpp_command(),
    {
        Command {
            command: String::from_str("compile_cpp: "),
            arg: String::from_str(
                "\t$(foreach file, $(CPP_FILES), \\\n\t\t$(eval out=$(patsubst %.cpp,%_cpp,$(file))) \\\n\t\t$(CC+) $(file) -o $(out);)",
            ),
        }
    }

    /// The Zig compile target.
    pub fn zig() -> (r: Command)
        ensures
            r@ == zig_command(),
    {
        Command {
            command: String::from_str("compile_zig: "),
            arg: String::from_str(
                "\t$(foreach file, $(ZIG_EXE), \\\n\t\tzig build-exe $(file);)\n\t$(foreach file, $(ZIG_TEST), \\\n\t\tzig test $(file);)\n\t$(foreach proj, $(ZIG_PROJS), \\\n\t\tcd $(proj) && zig build;)",
            ),
        }
    }

    /// Renders the target: header line, newline, recipe.
    pub fn to_string(&self) -> (r: String)
        ensures
            r@ == command_text(self@),
    {
        let mut r = self.command.clone();
        r.append("\n");
        r.append(self.arg.as_str());
        r
    }
}

/// The compiler-name variables and compile targets a chapter emits.
pub struct Commands {
    pub variables: Vec<String>,
    pub commands: Vec<Command>,
}

/// The mathematical value of a `Commands`.
#[verifier::ext_equal]
pub ghost struct CommandsV {
    pub variables: Seq<Seq<char>>,
    pub commands: Seq<CommandV>,
}

impl View for Commands {
    type V = CommandsV;

    open spec fn view(&self) -> CommandsV {
        CommandsV { variables: self.variables.deep_view(), commands: self.commands.deep_view() }
    }
}

/// The compiler-name variables a chapter emits: one fixed constant per
/// non-empty non-Zig bucket, in the fixed order.
pub open spec fn spec_compiler_vars(m: MakeVarV) -> Seq<Seq<char>> {
    (if m.c.len() > 0 {
        seq!["CC = clang"@]
    } else {
        Seq::empty()
    }) + (if m.cpp.len() > 0 {
        seq!["CC+ = g++"@]
    } else {
        Seq::empty()
    }) + (if m.rs.len() > 0 {
        seq!["RUSTC = rustc"@]
    } else {
        Seq::empty()
    })
}

/// The compile targets a chapter emits: one per non-empty bucket, in the
/// fixed order C, C++, Rust, Zig.
pub open spec fn spec_commands(m: MakeVarV) -> Seq<CommandV> {
    (if m.c.len() > 0 {
        seq![c_command()]
    } else {
        Seq::empty()
    }) + (if m.cpp.len() > 0 {
        seq![cpp_command()]
    } else {
        Seq::empty()
    }) + (if m.rs.len() > 0 {
        seq![rust_command()]
    } else {
        Seq::empty()
    }) + (if m.zig.len() > 0 {
        seq![zig_command()]
    } else {
        Seq::empty()
    })
}

/// The rendered command block: the compiler variables joined by newlines,
/// one newline, then the target texts joined by newlines.
pub open spec fn spec_commands_text(cv: CommandsV) -> Seq<char> {
    join_with(cv.variables, "\n"@) + "\n"@ + join_with(command_texts(cv.commands), "\n"@)
}

impl Commands {
    /// Selects the compiler variables and compile targets for the given
    /// buckets.
    pub fn new(make_var: &MakeVar) -> (r: Commands)
        ensures
            r@.variables == spec_compiler_vars(make_var@),
            r@.commands == spec_commands(make_var@),
    {
        let mut variables: Vec<String> = Vec::new();
        let mut commands: Vec<Command> = Vec::new();
        if make_var.c.len() > 0 {
            variables.push(String::from_str("CC = clang"));
            commands.push(Command::c());
        }
        if make_var.cpp.len() > 0 {
            variables.push(String::from_str("CC+ = g++"));
            commands.push(Command::cpp());
        }
        if make_var.rs.len() > 0 {
            variables.push(String::from_str("RUSTC = rustc"));
            commands.push(Command::rust());
        }
        if make_var.zig.len() > 0 {
            commands.push(Command::zig());
        }
        let r = Commands { variables, commands };
        proof {
            assert(r@.variables =~= spec_compiler_vars(make_var@));
            assert(r@.commands =~= spec_commands(make_var@));
        }
        r
    }

    /// Renders the command block.
    pub fn to_string(&self) -> (r: String)
        ensures
            r@ == spec_commands_text(self@),
    {
        let mut texts: Vec<String> = Vec::new();
        let mut k: usize = 0;
        while k < self.commands.len()
            invariant
                k <= self.commands.len(),
                self.commands.deep_view().len() == self.commands.len(),
                texts.deep_view() == command_texts(self.commands.deep_view().take(k as int)),
            decreases self.commands.len() - k,
        {
            let ghost pre = texts.deep_view();
            texts.push(self.commands[k].to_string());
            proof {
                let dv = self.commands.deep_view();
                assert(texts.deep_view() =~= pre.push(command_text(dv[k as int])));
                assert(command_texts(dv.take(k + 1)) =~= command_texts(dv.take(k as int)).push(
                    command_text(dv[k as int]),
                ));
            }
            k += 1;
        }
        proof {
            assert(self.commands.deep_view().take(self.commands.len() as int)
                =~= self.commands.deep_view());
        }
        let mut r = join_strings(&self.variables, "\n");
        r.append("\n");
        let cmds = join_strings(&texts, "\n");
        r.append(cmds.as_str());
        r
    }
}

/// A chapter's whole build file: the variable block, a newline, then the
/// command block.
pub open spec fn spec_chapter_makefile(m: MakeVarV) -> Seq<char> {
    spec_var_block(m) + "\n"@ + join_with(spec_compiler_vars(m), "\n"@) + "\n"@ + join_with(
        command_texts(spec_commands(m)),
        "\n"@,
    )
}

/// Renders a chapter's whole build file from its buckets.
pub fn chapter_makefile(make_var: &MakeVar) -> (r: String)
    ensures
        r@ == spec_chapter_makefile(make_var@),
{
    let commands = Commands::new(make_var);
    let mut r = make_var.to_string();
    r.append("\n");
    let cmd_text = commands.to_string();
    r.append(cmd_text.as_str());
    proof {
        assert(r@ =~= spec_chapter_makefile(make_var@));
    }
    r
}


/// The names of the compile targets a chapter emits, in the fixed order.
pub open spec fn spec_command_names(m: MakeVarV) -> Seq<Seq<char>> {
    (if m.c.len() > 0 {
        seq!["compile_c"@]
    } else {
        Seq::empty()
    }) + (if m.cpp.len() > 0 {
        seq!["compile_cpp"@]
    } else {
        Seq::empty()
    }) + (if m.rs.len() > 0 {
        seq!["compile_rs"@]
    } else {
        Seq::empty()
    }) + (if m.zig.len() > 0 {
        seq!["compile_zig"@]
    } else {
        Seq::empty()
    })
}

/// Every file name in the buckets is free of newline characters, as names
/// read from a directory are.
pub open spec fn names_newline_free(m: MakeVarV) -> bool {
    &&& forall|i: int| 0 <= i < m.c.len() ==> crate::text::no_newline(#[trigger] m.c[i])
    &&& forall|i: int| 0 <= i < m.cpp.len() ==> crate::text::no_newline(#[trigger] m.cpp[i])
    &&& forall|i: int| 0 <= i < m.rs.len() ==> crate::text::no_newline(#[trigger] m.rs[i])
    &&& forall|i: int| 0 <= i < m.zig.len() ==> crate::text::no_newline(#[trigger] m.zig[i].file)
}

} // verus!
