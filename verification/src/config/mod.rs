//! The guest configuration document and its rendering into a full
//! emulator command line.

use vstd::prelude::*;
use vstd::string::*;
use crate::error::Error;
use crate::file::{digest_of, spec_hex, File};
use crate::render::{spec_dec, u64_to_string};

mod network;
pub use network::NetworkDeviceConfig;
mod drive;
pub use drive::DriveConfig;
mod smp;
pub use smp::SmpConfig;
mod machine;
pub use machine::MachineConfig;
mod boot;
pub use boot::BootConfig;
mod device;
pub use device::DeviceConfig;
mod filesystem;
pub use filesystem::{local, FilesystemDeviceConfig, SecurityModel};

verus! {

/// The persisted, user-authored guest document.
#[derive(Clone, Debug, PartialEq)]
pub struct GuestConfig {
    pub arch: String,
    pub memory: u64,
    pub boot: Option<BootConfig>,
    pub cpu: Option<String>,
    pub smp: Option<SmpConfig>,
    pub bios: Option<File>,
    pub accel: Option<String>,
    pub machine: Option<MachineConfig>,
    pub display: String,
    pub drive: Option<Vec<DriveConfig>>,
    pub netdev: Option<Vec<NetworkDeviceConfig>>,
}

/// The default display value of a guest document.
pub fn default_display() -> (r: String)
    ensures
        r@ == "none"@,
{
    String::from_str("none")
}

/// A spawnable command: the program name and its ordered arguments.
#[derive(Clone, Debug, PartialEq)]
pub struct CommandPlan {
    pub program: String,
    pub args: Vec<String>,
}

/// A flag followed by an optional string value, or nothing.
pub open spec fn spec_opt_flag(flag: Seq<char>, o: Option<String>) -> Seq<Seq<char>> {
    match o {
        Some(s) => seq![flag, s@],
        None => Seq::empty(),
    }
}

/// The local path a file reference resolves to; remote files resolve to
/// their content-addressed cache name under the storage directory.
pub open spec fn spec_resolved_path(f: File, local_storage: Seq<char>) -> Seq<char> {
    match f {
        File::Local(p) => p@,
        File::Remote(u) => local_storage + "/"@ + spec_hex(
            digest_of("SHA3-256"@, vstd::utf8::encode_utf8(u@)),
        ),
    }
}

/// The `-bios` arguments, when a bios file is given.
pub open spec fn spec_bios_args(bios: Option<File>, local_storage: Seq<char>) -> Seq<Seq<char>> {
    match bios {
        Some(f) => seq!["-bios"@, spec_resolved_path(f, local_storage)],
        None => Seq::empty(),
    }
}

/// The rendering of an optional machine fragment.
pub open spec fn spec_opt_machine(o: Option<MachineConfig>) -> Seq<Seq<char>> {
    match o {
        Some(m) => m.spec_args(),
        None => Seq::empty(),
    }
}

/// The rendering of an optional boot fragment.
pub open spec fn spec_opt_boot(o: Option<BootConfig>) -> Seq<Seq<char>> {
    match o {
        Some(b) => b.spec_args(),
        None => Seq::empty(),
    }
}

/// The rendering of an optional SMP fragment.
pub open spec fn spec_opt_smp(o: Option<SmpConfig>) -> Seq<Seq<char>> {
    match o {
        Some(s) => s.spec_args(),
        None => Seq::empty(),
    }
}

/// The rendering of an optional drive list.
pub open spec fn spec_opt_drives(o: Option<Vec<DriveConfig>>) -> Seq<Seq<char>> {
    match o {
        Some(ds) => spec_drives_args(ds@),
        None => Seq::empty(),
    }
}

/// The concatenated renderings of a drive list, in order.
pub open spec fn spec_drives_args(ds: Seq<DriveConfig>) -> Seq<Seq<char>>
    decreases ds.len(),
{
    if ds.len() == 0 {
        Seq::empty()
    } else {
        spec_drives_args(ds.drop_last()) + ds.last().spec_args()
    }
}

/// Pushes one argument, stated over the views.
fn push_arg(args: &mut Vec<String>, value: String)
    ensures
        final(args).deep_view() == old(args).deep_view() + seq![value@],
{
    let ghost args_views = args.deep_view();
    let ghost args_seq = args@;
    args.push(value);
    proof {
        assert forall|k: int| 0 <= k < args@.len() implies #[trigger] args.deep_view()[k] == (
        args_views + seq![value@])[k] by {
            if k < args_seq.len() {
                assert(args@[k] == args_seq[k]);
            } else {
                assert(args@[k] == value);
            }
        }
        assert(args.deep_view() =~= args_views + seq![value@]);
    }
}

/// Moves every argument of `more` to the end of `args`.
pub(crate) fn extend_args(args: &mut Vec<String>, more: Vec<String>)
    ensures
        final(args).deep_view() == old(args).deep_view() + more.deep_view(),
{
    let ghost args_views = args.deep_view();
    let ghost args_seq = args@;
    let ghost more_views = more.deep_view();
    let ghost more_seq = more@;
    let mut moved = more;
    args.append(&mut moved);
    proof {
        assert(args@ == args_seq + more_seq);
        assert forall|k: int| 0 <= k < args@.len() implies #[trigger] args.deep_view()[k] == (
        args_views + more_views)[k] by {
            if k < args_seq.len() {
                assert(args@[k] == args_seq[k]);
            } else {
                assert(args@[k] == more_seq[k - args_seq.len()]);
            }
        }
        assert(args.deep_view() =~= args_views + more_views);
    }
}

/// Appends the renderings of every drive record, in order.
fn append_drive_args(args: &mut Vec<String>, drives: &Vec<DriveConfig>) -> (r: Result<(), Error>)
    ensures
        r is Ok,
        final(args).deep_view() == old(args).deep_view() + spec_drives_args(drives@),
{
    let ghost base = old(args).deep_view();
    let n = drives.len();
    let mut i: usize = 0;
    proof {
        assert(drives@.subrange(0, 0) =~= Seq::<DriveConfig>::empty());
        assert(base + spec_drives_args(drives@.subrange(0, 0)) =~= base);
    }
    while i < n
        invariant
            n == drives@.len(),
            i <= n,
            args.deep_view() == base + spec_drives_args(drives@.subrange(0, i as int)),
        decreases n - i,
    {
        let more = (&drives[i]).as_args()?;
        extend_args(args, more);
        proof {
            let prev = drives@.subrange(0, i as int);
            let now = drives@.subrange(0, i + 1);
            assert(now.drop_last() =~= prev);
            assert(now.last() == drives@[i as int]);
            assert(spec_drives_args(now) == spec_drives_args(prev) + drives@[i as int].spec_args());
            assert(args.deep_view() =~= base + spec_drives_args(now));
        }
        i = i + 1;
    }
    proof {
        assert(drives@.subrange(0, n as int) =~= drives@);
    }
    Ok(())
}

impl GuestConfig {
    /// A fresh document: required fields as given, the display defaulted,
    /// everything else absent.
    pub fn new(arch: String, memory: u64) -> (r: Self)
        ensures
            r.arch == arch,
            r.memory == memory,
            r.boot is None,
            r.cpu is None,
            r.smp is None,
            r.bios is None,
            r.accel is None,
            r.machine is None,
            r.display@ == "none"@,
            r.drive is None,
            r.netdev is None,
    {
        Self {
            arch,
            memory,
            boot: None,
            cpu: None,
            smp: None,
            bios: None,
            accel: None,
            machine: None,
            display: default_display(),
            drive: None,
            netdev: None,
        }
    }

    /// A copy of the document holding the same data.
    pub fn duplicate(&self) -> (r: Self)
        ensures
            config_eqv(r, *self),
    {
        let copy = Self {
            arch: self.arch.clone(),
            memory: self.memory,
            boot: match &self.boot {
                Some(b) => Some(b.duplicate()),
                None => None,
            },
            cpu: match &self.cpu {
                Some(c) => Some(c.clone()),
                None => None,
            },
            smp: self.smp,
            bios: match &self.bios {
                Some(f) => Some(f.duplicate()),
                None => None,
            },
            accel: match &self.accel {
                Some(a) => Some(a.clone()),
                None => None,
            },
            machine: match &self.machine {
                Some(m) => Some(m.duplicate()),
                None => None,
            },
            display: self.display.clone(),
            drive: match &self.drive {
                Some(ds) => Some(duplicate_drives(ds)),
                None => None,
            },
            netdev: match &self.netdev {
                Some(ds) => Some(duplicate_netdevs(ds)),
                None => None,
            },
        };
        proof {
            assert(copy.arch@ == self.arch@);
            assert(opt_string_eqv(copy.cpu, self.cpu));
            assert(opt_string_eqv(copy.accel, self.accel));
            assert(match (copy.bios, self.bios) {
                (None, None) => true,
                (Some(x), Some(y)) => file_eqv(x, y),
                _ => false,
            });
            assert(match (copy.boot, self.boot) {
                (None, None) => true,
                (Some(x), Some(y)) => opt_string_eqv(x.order, y.order),
                _ => false,
            });
            assert(match (copy.machine, self.machine) {
                (None, None) => true,
                (Some(x), Some(y)) => x.machine_type@ == y.machine_type@ && opt_prop_eqv(
                    x.props,
                    y.props,
                ),
                _ => false,
            });
            assert(match (copy.drive, self.drive) {
                (None, None) => true,
                (Some(x), Some(y)) => x@.len() == y@.len() && (forall|i: int|
                    0 <= i < x@.len() ==> x@[i].options@ == #[trigger] y@[i].options@),
                _ => false,
            });
            assert(match (copy.netdev, self.netdev) {
                (None, None) => true,
                (Some(x), Some(y)) => x@.len() == y@.len() && (forall|i: int|
                    0 <= i < x@.len() ==> (x@[i].device_type@ == #[trigger] y@[i].device_type@
                        && opt_prop_eqv(x@[i].props, y@[i].props))),
                _ => false,
            });
            assert(config_eqv(copy, *self));
        }
        copy
    }

    /// The leading arguments of the command: `-cpu`, `-accel` and
    /// `-bios` when present, then the machine rendering.
    pub open spec fn spec_front_args(self, local_storage: Seq<char>) -> Seq<Seq<char>> {
        spec_opt_flag("-cpu"@, self.cpu) + spec_opt_flag("-accel"@, self.accel) + spec_bios_args(
            self.bios,
            local_storage,
        ) + spec_opt_machine(self.machine)
    }

    /// The full ordered argument vector of the document: `-cpu`, `-accel`
    /// and `-bios` when present, then the machine, boot, SMP and drive
    /// renderings, then the memory size and display.  The monitor channel
    /// arguments are not here: the lifecycle engine appends them at spawn.
    pub open spec fn spec_cmd_args(self, local_storage: Seq<char>) -> Seq<Seq<char>> {
        self.spec_front_args(local_storage) + spec_opt_boot(self.boot) + spec_opt_smp(self.smp)
            + spec_opt_drives(self.drive) + seq![
            "-m"@,
            spec_dec(self.memory as nat),
            "-display"@,
            self.display@,
        ]
    }

    /// Renders the leading arguments.
    fn front_args(&self, local_storage: &str) -> (r: Result<Vec<String>, Error>)
        ensures
            r matches Ok(v) ==> v.deep_view() == self.spec_front_args(local_storage@),
            !(self.bios matches Some(File::Remote(_))) ==> r is Ok,
            r matches Err(e) ==> e.spec_kind() == crate::error::ErrorKind::IOError,
    {
        let mut args: Vec<String> = Vec::new();
        if let Some(cpu) = &self.cpu {
            push_arg(&mut args, String::from_str("-cpu"));
            push_arg(&mut args, cpu.clone());
        }
        let ghost g1 = spec_opt_flag("-cpu"@, self.cpu);
        proof {
            assert(args.deep_view() =~= g1);
        }
        if let Some(accel) = &self.accel {
            push_arg(&mut args, String::from_str("-accel"));
            push_arg(&mut args, accel.clone());
        }
        let ghost g2 = g1 + spec_opt_flag("-accel"@, self.accel);
        proof {
            assert(args.deep_view() =~= g2);
        }
        if let Some(bios) = &self.bios {
            let resolved = bios.cache_path(local_storage)?;
            push_arg(&mut args, String::from_str("-bios"));
            push_arg(&mut args, resolved);
        }
        let ghost g3 = g2 + spec_bios_args(self.bios, local_storage@);
        proof {
            assert(args.deep_view() =~= g3);
        }
        if let Some(machine) = &self.machine {
            let more = machine.as_args()?;
            extend_args(&mut args, more);
        }
        proof {
            assert(args.deep_view() =~= g3 + spec_opt_machine(self.machine));
        }
        Ok(args)
    }

    /// The program the document selects: `qemu-system-<arch>`.
    pub open spec fn spec_program(self) -> Seq<char> {
        "qemu-system-"@ + self.arch@
    }

    /// Derives the command for the document.  Fails only where resolving
    /// a remote bios reference fails; a document without one always
    /// renders.
    #[verifier::rlimit(100)]
    pub fn as_cmd(&self, local_storage: &str) -> (r: Result<CommandPlan, Error>)
        ensures
            r matches Ok(plan) ==> plan.program@ == self.spec_program()
                && plan.args.deep_view() == self.spec_cmd_args(local_storage@),
            !(self.bios matches Some(File::Remote(_))) ==> r is Ok,
            r matches Err(e) ==> e.spec_kind() == crate::error::ErrorKind::IOError,
    {
        let mut args: Vec<String> = self.front_args(local_storage)?;
        let ghost g4 = self.spec_front_args(local_storage@);
        if let Some(boot) = &self.boot {
            let more = boot.as_args()?;
            extend_args(&mut args, more);
        }
        let ghost g5 = g4 + spec_opt_boot(self.boot);
        proof {
            assert(args.deep_view() =~= g5);
        }
        if let Some(smp) = &self.smp {
            let more = smp.as_args()?;
            extend_args(&mut args, more);
        }
        let ghost g6 = g5 + spec_opt_smp(self.smp);
        proof {
            assert(args.deep_view() =~= g6);
        }
        if let Some(drives) = &self.drive {
            append_drive_args(&mut args, drives)?;
        }
        let ghost g7 = g6 + spec_opt_drives(self.drive);
        proof {
            assert(args.deep_view() =~= g7);
        }
        push_arg(&mut args, String::from_str("-m"));
        push_arg(&mut args, u64_to_string(self.memory));
        push_arg(&mut args, String::from_str("-display"));
        push_arg(&mut args, self.display.clone());
        proof {
            assert(args.deep_view() =~= self.spec_cmd_args(local_storage@));
        }
        Ok(CommandPlan { program: String::from_str("qemu-system-").concat(self.arch.as_str()), args })
    }
}

/// Optional strings with the same characters.
pub open spec fn opt_string_eqv(a: Option<String>, b: Option<String>) -> bool {
    match (a, b) {
        (None, None) => true,
        (Some(x), Some(y)) => x@ == y@,
        _ => false,
    }
}

/// File references of the same kind with the same text.
pub open spec fn file_eqv(a: File, b: File) -> bool {
    match (a, b) {
        (File::Local(x), File::Local(y)) => x@ == y@,
        (File::Remote(x), File::Remote(y)) => x@ == y@,
        _ => false,
    }
}

/// Optional property maps with the same entries.
pub open spec fn opt_prop_eqv(a: Option<crate::props::PropMap>, b: Option<crate::props::PropMap>) -> bool {
    match (a, b) {
        (None, None) => true,
        (Some(x), Some(y)) => x@ == y@,
        _ => false,
    }
}

/// Documents that hold the same data, compared by the views of their
/// fields: the notion of equality the storage and orchestration
/// contracts speak of.
pub open spec fn config_eqv(a: GuestConfig, b: GuestConfig) -> bool {
    &&& a.arch@ == b.arch@
    &&& a.memory == b.memory
    &&& a.display@ == b.display@
    &&& opt_string_eqv(a.cpu, b.cpu)
    &&& opt_string_eqv(a.accel, b.accel)
    &&& match (a.bios, b.bios) {
        (None, None) => true,
        (Some(x), Some(y)) => file_eqv(x, y),
        _ => false,
    }
    &&& match (a.boot, b.boot) {
        (None, None) => true,
        (Some(x), Some(y)) => opt_string_eqv(x.order, y.order),
        _ => false,
    }
    &&& a.smp == b.smp
    &&& match (a.machine, b.machine) {
        (None, None) => true,
        (Some(x), Some(y)) => x.machine_type@ == y.machine_type@ && opt_prop_eqv(x.props, y.props),
        _ => false,
    }
    &&& match (a.drive, b.drive) {
        (None, None) => true,
        (Some(x), Some(y)) => x@.len() == y@.len() && (forall|i: int|
            0 <= i < x@.len() ==> x@[i].options@ == #[trigger] y@[i].options@),
        _ => false,
    }
    &&& match (a.netdev, b.netdev) {
        (None, None) => true,
        (Some(x), Some(y)) => x@.len() == y@.len() && (forall|i: int|
            0 <= i < x@.len() ==> (x@[i].device_type@ == #[trigger] y@[i].device_type@
                && opt_prop_eqv(x@[i].props, y@[i].props))),
        _ => false,
    }
}

/// Copies of a drive list, entry for entry.
fn duplicate_drives(ds: &Vec<DriveConfig>) -> (r: Vec<DriveConfig>)
    ensures
        r@.len() == ds@.len(),
        forall|i: int| 0 <= i < ds@.len() ==> r@[i].options@ == #[trigger] ds@[i].options@,
{
    let n = ds.len();
    let mut out: Vec<DriveConfig> = Vec::new();
    let mut i: usize = 0;
    while i < n
        invariant
            n == ds@.len(),
            i <= n,
            out@.len() == i,
            forall|k: int| 0 <= k < i ==> out@[k].options@ == #[trigger] ds@[k].options@,
        decreases n - i,
    {
        out.push((&ds[i]).duplicate());
        i = i + 1;
    }
    out
}

/// Copies of a network device list, entry for entry.
fn duplicate_netdevs(ds: &Vec<NetworkDeviceConfig>) -> (r: Vec<NetworkDeviceConfig>)
    ensures
        r@.len() == ds@.len(),
        forall|i: int| 0 <= i < ds@.len() ==> (r@[i].device_type@ == #[trigger] ds@[i].device_type@
            && opt_prop_eqv(r@[i].props, ds@[i].props)),
{
    let n = ds.len();
    let mut out: Vec<NetworkDeviceConfig> = Vec::new();
    let mut i: usize = 0;
    while i < n
        invariant
            n == ds@.len(),
            i <= n,
            out@.len() == i,
            forall|k: int| 0 <= k < i ==> (out@[k].device_type@ == #[trigger] ds@[k].device_type@
                && opt_prop_eqv(out@[k].props, ds@[k].props)),
        decreases n - i,
    {
        out.push((&ds[i]).duplicate());
        i = i + 1;
    }
    out
}

impl GuestConfig {
    /// The same document up to the representation of its free-form
    /// property maps: every scalar field equal, every property map well
    /// formed and denoting the same key-to-value map.
    pub open spec fn congruent(self, other: Self) -> bool {
        &&& self.arch@ == other.arch@
        &&& self.memory == other.memory
        &&& self.display@ == other.display@
        &&& opt_string_eqv(self.cpu, other.cpu)
        &&& opt_string_eqv(self.accel, other.accel)
        &&& match (self.bios, other.bios) {
            (None, None) => true,
            (Some(x), Some(y)) => file_eqv(x, y),
            _ => false,
        }
        &&& match (self.boot, other.boot) {
            (None, None) => true,
            (Some(x), Some(y)) => opt_string_eqv(x.order, y.order),
            _ => false,
        }
        &&& match (self.smp, other.smp) {
            (None, None) => true,
            (Some(x), Some(y)) => x.cores == y.cores,
            _ => false,
        }
        &&& match (self.machine, other.machine) {
            (None, None) => true,
            (Some(x), Some(y)) => x.congruent(y),
            _ => false,
        }
        &&& match (self.drive, other.drive) {
            (None, None) => true,
            (Some(x), Some(y)) => x@.len() == y@.len() && (forall|i: int|
                0 <= i < x@.len() ==> x@[i].congruent(#[trigger] y@[i])),
            _ => false,
        }
        &&& match (self.netdev, other.netdev) {
            (None, None) => true,
            (Some(x), Some(y)) => x@.len() == y@.len() && (forall|i: int|
                0 <= i < x@.len() ==> x@[i].congruent(#[trigger] y@[i])),
            _ => false,
        }
    }
}

/// Drive lists that agree pairwise up to property-map representation
/// render identically.
proof fn lemma_drives_congruent(a: Seq<DriveConfig>, b: Seq<DriveConfig>)
    requires
        a.len() == b.len(),
        forall|i: int| 0 <= i < a.len() ==> a[i].congruent(#[trigger] b[i]),
    ensures
        spec_drives_args(a) == spec_drives_args(b),
    decreases a.len(),
{
    if a.len() > 0 {
        lemma_drives_congruent(a.drop_last(), b.drop_last());
        a.last().lemma_congruent_args(b.last());
    }
}

/// Drive lists with pointwise equal option views render identically.
proof fn lemma_drives_eqv(a: Seq<DriveConfig>, b: Seq<DriveConfig>)
    requires
        a.len() == b.len(),
        forall|i: int| 0 <= i < a.len() ==> a[i].options@ == (#[trigger] b[i]).options@,
    ensures
        spec_drives_args(a) == spec_drives_args(b),
    decreases a.len(),
{
    if a.len() > 0 {
        lemma_drives_eqv(a.drop_last(), b.drop_last());
        assert(a.last().spec_args() =~~= b.last().spec_args());
    }
}

/// Documents that hold the same data render the same command: the
/// program and the full argument vector depend on the field views
/// alone.
pub proof fn lemma_eqv_renders_alike(a: GuestConfig, b: GuestConfig, local_storage: Seq<char>)
    requires
        config_eqv(a, b),
    ensures
        a.spec_program() == b.spec_program(),
        a.spec_cmd_args(local_storage) == b.spec_cmd_args(local_storage),
{
    assert(spec_opt_flag("-cpu"@, a.cpu) == spec_opt_flag("-cpu"@, b.cpu));
    assert(spec_opt_flag("-accel"@, a.accel) == spec_opt_flag("-accel"@, b.accel));
    assert(spec_bios_args(a.bios, local_storage) =~~= spec_bios_args(b.bios, local_storage));
    assert(spec_opt_machine(a.machine) =~~= spec_opt_machine(b.machine));
    assert(spec_opt_boot(a.boot) =~~= spec_opt_boot(b.boot));
    assert(spec_opt_smp(a.smp) =~~= spec_opt_smp(b.smp));
    match (a.drive, b.drive) {
        (Some(x), Some(y)) => lemma_drives_eqv(x@, y@),
        _ => {},
    }
    assert(spec_opt_drives(a.drive) == spec_opt_drives(b.drive));
    assert(a.spec_front_args(local_storage) == b.spec_front_args(local_storage));
}

/// Rendering is deterministic: two documents that agree up to the
/// representation of their property maps derive the same program and the
/// same ordered argument vector.  With property maps held sorted by key,
/// the command a document renders to does not depend on the order its
/// properties were written or inserted in.
pub proof fn lemma_render_deterministic(c1: GuestConfig, c2: GuestConfig, local_storage: Seq<char>)
    requires
        c1.congruent(c2),
    ensures
        c1.spec_program() == c2.spec_program(),
        c1.spec_cmd_args(local_storage) == c2.spec_cmd_args(local_storage),
{
    assert(spec_opt_flag("-cpu"@, c1.cpu) == spec_opt_flag("-cpu"@, c2.cpu));
    assert(spec_opt_flag("-accel"@, c1.accel) == spec_opt_flag("-accel"@, c2.accel));
    assert(spec_bios_args(c1.bios, local_storage) =~~= spec_bios_args(c2.bios, local_storage));
    match (c1.machine, c2.machine) {
        (Some(x), Some(y)) => x.lemma_congruent_args(y),
        _ => {},
    }
    assert(spec_opt_machine(c1.machine) == spec_opt_machine(c2.machine));
    assert(spec_opt_boot(c1.boot) =~~= spec_opt_boot(c2.boot));
    assert(spec_opt_smp(c1.smp) =~~= spec_opt_smp(c2.smp));
    match (c1.drive, c2.drive) {
        (Some(x), Some(y)) => lemma_drives_congruent(x@, y@),
        _ => {},
    }
    assert(spec_opt_drives(c1.drive) == spec_opt_drives(c2.drive));
}

} // verus!
