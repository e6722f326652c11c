use vstd::prelude::*;

verus! {

/// How to start the embedded Neovim: its executable, the files to open and
/// whether to skip the user's configuration. `P` is the platform's path type.
#[derive(Debug)]
pub struct NvimLaunchOptions<P> {
    pub executable: P,
    pub files: Vec<P>,
    pub clean: bool,
}

/// One argument of Neovim's command line.
#[derive(Debug, Clone, Copy, PartialEq, Eq)]
pub enum LaunchArgument {
    /// `--clean`: start without user configuration.
    Clean,
    /// `--embed`: speak MessagePack-RPC on standard input and output.
    Embed,
    /// `--`: what follows are file names.
    EndOfOptions,
    /// The file at this index of the launch options' files.
    File(usize),
}

impl LaunchArgument {
    /// The text of an option argument; files have none.
    pub fn option_text(self) -> (r: Option<&'static str>)
        ensures
            self == LaunchArgument::Clean ==> (r matches Some(t) && t@ == "--clean"@),
            self == LaunchArgument::Embed ==> (r matches Some(t) && t@ == "--embed"@),
            self == LaunchArgument::EndOfOptions ==> (r matches Some(t) && t@ == "--"@),
            self is File ==> r is None,
    {
        match self {
            LaunchArgument::Clean => Some("--clean"),
            LaunchArgument::Embed => Some("--embed"),
            LaunchArgument::EndOfOptions => Some("--"),
            LaunchArgument::File(_) => None,
        }
    }
}

/// Neovim's arguments: `--clean` when asked for, `--embed`, then `--` and
/// the files when there are any.
pub open spec fn launch_arguments(clean: bool, file_count: nat) -> Seq<LaunchArgument> {
    let head = if clean {
        seq![LaunchArgument::Clean, LaunchArgument::Embed]
    } else {
        seq![LaunchArgument::Embed]
    };
    if file_count == 0 {
        head
    } else {
        head + seq![LaunchArgument::EndOfOptions] + Seq::new(
            file_count,
            |i: int| LaunchArgument::File(i as usize),
        )
    }
}

impl<P> NvimLaunchOptions<P> {
    /// The command line that starts Neovim with these options.
    pub fn arguments(&self) -> (r: Vec<LaunchArgument>)
        ensures
            r@ == launch_arguments(self.clean, self.files@.len()),
    {
        let mut args: Vec<LaunchArgument> = Vec::new();
        if self.clean {
            args.push(LaunchArgument::Clean);
        }
        args.push(LaunchArgument::Embed);
        let count = self.files.len();
        if count > 0 {
            args.push(LaunchArgument::EndOfOptions);
            let head_len = args.len();
            let ghost head = args@;
            let mut i: usize = 0;
            while i < count
                invariant
                    count == self.files@.len(),
                    i <= count,
                    head_len == head.len(),
                    args@.len() == head_len + i,
                    args@.subrange(0, head_len as int) == head,
                    forall|j: int|
                        0 <= j < i ==> #[trigger] args@[head_len + j] == LaunchArgument::File(
                            j as usize,
                        ),
                decreases count - i,
            {
                args.push(LaunchArgument::File(i));
                i += 1;
                assert(args@.subrange(0, head_len as int) =~= head);
            }
            let ghost expected = launch_arguments(self.clean, self.files@.len());
            assert(expected.len() == args@.len());
            assert forall|k: int| 0 <= k < args@.len() implies args@[k] == expected[k] by {
                if k < head_len {
                    assert(args@[k] == args@.subrange(0, head_len as int)[k]);
                } else {
                    let j = k - head_len;
                    assert(args@[head_len + j] == LaunchArgument::File(j as usize));
                }
            }
            assert(args@ =~= expected);
        } else {
            assert(args@ =~= launch_arguments(self.clean, self.files@.len()));
        }
        args
    }
}

/// `parts` joined with ", ".
pub open spec fn joined(parts: Seq<Seq<char>>) -> Seq<char>
    decreases parts.len(),
{
    if parts.len() == 0 {
        Seq::empty()
    } else if parts.len() == 1 {
        parts[0]
    } else {
        joined(parts.drop_last()) + ", "@ + parts.last()
    }
}

/// The error reported when no Neovim executable was found, naming the
/// paths that were checked.
pub fn nvim_not_found_message(searched: &Vec<String>) -> (r: String)
    ensures
        r@ == "Neovim was not found. Set MADO_NVIM or add nvim to PATH. Checked: "@ + joined(
            searched@.map_values(|p: String| p@),
        ),
{
    let ghost parts = searched@.map_values(|p: String| p@);
    let mut list = String::new();
    let mut i: usize = 0;
    while i < searched.len()
        invariant
            parts == searched@.map_values(|p: String| p@),
            i <= searched@.len(),
            list@ == joined(parts.subrange(0, i as int)),
        decreases searched@.len() - i,
    {
        if i > 0 {
            list.append(", ");
        }
        list.append(searched[i].as_str());
        proof {
            let next = parts.subrange(0, i + 1);
            assert(next.drop_last() =~= parts.subrange(0, i as int));
            assert(next.last() == searched@[i as int]@);
        }
        i += 1;
    }
    assert(parts.subrange(0, searched@.len() as int) =~= parts);
    let mut message = String::from_str(
        "Neovim was not found. Set MADO_NVIM or add nvim to PATH. Checked: ",
    );
    message.append(list.as_str());
    message
}

} // verus!
