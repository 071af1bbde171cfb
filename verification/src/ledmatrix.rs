//! What is sent to an LED matrix module, and which serial ports are one.
//!
//! A command is a frame of bytes: two magic bytes, the code of the command,
//! and its arguments. This module builds the frames and picks the ports of
//! LED matrix modules from a list of ports; opening a port and writing to it
//! is left to the caller.

use vstd::prelude::*;
use crate::constants::Colour;
use crate::game::Block;

verus! {

/// The USB vendor id of the modules.
pub const FRAMEWORK_VID: u16 = 0x32AC;

/// The USB product id of the LED matrix module.
pub const LED_MATRIX_PID: u16 = 0x0020;

/// The longest frame that a module takes.
pub const MAX_FRAME: usize = 64;

/// Number of columns of a module.
pub const WIDTH: usize = 9;

/// Number of rows of a module.
pub const HEIGHT: usize = 34;

/// Number of bytes that hold one bit for each LED of a module.
pub const IMAGE_BYTES: usize = 39;

/// The commands that a module understands.
#[derive(Clone, Copy, Debug, PartialEq, Eq, Structural)]
pub enum Command {
    Brightness,
    Pattern,
    Bootloader,
    Sleeping,
    Animate,
    Panic,
    DisplayBwImage,
    SendCol,
    CommitCols,
    B1Reserved,
    StartGame,
    GameControl,
    GameStatus,
    SetColor,
    DisplayOn,
    InvertScreen,
    SetPixelColumn,
    FlushFramebuffer,
    ClearRam,
    ScreenSaver,
    Fps,
    PowerMode,
    AnimationPeriod,
    PwmFreq,
    DebugMode,
    Version,
}

impl Command {
    /// The byte that stands for the command in a frame.
    pub open spec fn spec_code(self) -> u8 {
        match self {
            Command::Brightness => 0x00,
            Command::Pattern => 0x01,
            Command::Bootloader => 0x02,
            Command::Sleeping => 0x03,
            Command::Animate => 0x04,
            Command::Panic => 0x05,
            Command::DisplayBwImage => 0x06,
            Command::SendCol => 0x07,
            Command::CommitCols => 0x08,
            Command::B1Reserved => 0x09,
            Command::StartGame => 0x10,
            Command::GameControl => 0x11,
            Command::GameStatus => 0x12,
            Command::SetColor => 0x13,
            Command::DisplayOn => 0x14,
            Command::InvertScreen => 0x15,
            Command::SetPixelColumn => 0x16,
            Command::FlushFramebuffer => 0x17,
            Command::ClearRam => 0x18,
            Command::ScreenSaver => 0x19,
            Command::Fps => 0x1A,
            Command::PowerMode => 0x1B,
            Command::AnimationPeriod => 0x1C,
            Command::PwmFreq => 0x1E,
            Command::DebugMode => 0x1F,
            Command::Version => 0x20,
        }
    }

    /// The byte that stands for the command in a frame.
    pub fn code(self) -> (code: u8)
        ensures
            code == self.spec_code(),
    {
        match self {
            Command::Brightness => 0x00,
            Command::Pattern => 0x01,
            Command::Bootloader => 0x02,
            Command::Sleeping => 0x03,
            Command::Animate => 0x04,
            Command::Panic => 0x05,
            Command::DisplayBwImage => 0x06,
            Command::SendCol => 0x07,
            Command::CommitCols => 0x08,
            Command::B1Reserved => 0x09,
            Command::StartGame => 0x10,
            Command::GameControl => 0x11,
            Command::GameStatus => 0x12,
            Command::SetColor => 0x13,
            Command::DisplayOn => 0x14,
            Command::InvertScreen => 0x15,
            Command::SetPixelColumn => 0x16,
            Command::FlushFramebuffer => 0x17,
            Command::ClearRam => 0x18,
            Command::ScreenSaver => 0x19,
            Command::Fps => 0x1A,
            Command::PowerMode => 0x1B,
            Command::AnimationPeriod => 0x1C,
            Command::PwmFreq => 0x1E,
            Command::DebugMode => 0x1F,
            Command::Version => 0x20,
        }
    }
}

/// The frame of a command: the magic bytes `32 AC`, the code of the command,
/// and its arguments.
pub open spec fn frame(command: Command, args: Seq<u8>) -> Seq<u8> {
    seq![0x32u8, 0xACu8, command.spec_code()] + args
}

/// The frame of `command` with the arguments `args`.
pub fn simple_cmd(command: Command, args: &[u8]) -> (bytes: Vec<u8>)
    requires
        3 + args@.len() <= MAX_FRAME,
    ensures
        bytes@ == frame(command, args@),
{
    let mut bytes: Vec<u8> = Vec::new();
    bytes.push(0x32);
    bytes.push(0xAC);
    bytes.push(command.code());
    let mut i: usize = 0;
    while i < args.len()
        invariant
            i <= args@.len(),
            bytes@ == frame(command, args@.subrange(0, i as int)),
        decreases args@.len() - i,
    {
        bytes.push(args[i]);
        assert(bytes@ =~= frame(command, args@.subrange(0, i + 1)));
        i += 1;
    }
    assert(args@.subrange(0, i as int) =~= args@);
    bytes
}

/// The frame that stages the grey values `vals` for column `x`. The staged
/// columns are shown by the frame of [`commit_cols`].
pub fn send_col(x: u8, vals: &[u8]) -> (bytes: Vec<u8>)
    requires
        4 + vals@.len() <= MAX_FRAME,
    ensures
        bytes@ == frame(Command::SendCol, seq![x] + vals@),
{
    let mut args: Vec<u8> = Vec::new();
    args.push(x);
    let mut i: usize = 0;
    while i < vals.len()
        invariant
            i <= vals@.len(),
            args@ == seq![x] + vals@.subrange(0, i as int),
        decreases vals@.len() - i,
    {
        args.push(vals[i]);
        assert(args@ =~= seq![x] + vals@.subrange(0, i + 1));
        i += 1;
    }
    assert(vals@.subrange(0, i as int) =~= vals@);
    simple_cmd(Command::SendCol, args.as_slice())
}

/// The frame that shows the columns staged by frames of [`send_col`], all
/// at once.
pub fn commit_cols() -> (bytes: Vec<u8>)
    ensures
        bytes@ == frame(Command::CommitCols, Seq::empty()),
{
    let args: [u8; 0] = [];
    let bytes = simple_cmd(Command::CommitCols, args.as_slice());
    assert(args@ =~= Seq::empty());
    bytes
}

/// A picture for a module: one value for each LED, `matrix.0[x][y]` for the
/// LED in column `x` and row `y`.
#[derive(Clone)]
pub struct Grid(pub [[u8; HEIGHT]; WIDTH]);

impl View for Grid {
    type V = Seq<Seq<u8>>;

    open spec fn view(&self) -> Seq<Seq<u8>> {
        Seq::new(9, |x: int| self.0[x]@)
    }
}

impl Default for Grid {
    /// The dark picture.
    fn default() -> (grid: Self)
        ensures
            forall|x: int, y: int| 0 <= x < 9 && 0 <= y < 34 ==> #[trigger] grid@[x][y] == 0,
    {
        Grid([[0; HEIGHT]; WIDTH])
    }
}

/// Whether LED number `i` of a picture is lit. The LEDs are numbered row by
/// row; an LED is lit if its value is `FF`.
pub open spec fn lit(matrix: Seq<Seq<u8>>, i: int) -> bool {
    0 <= i < 306 && matrix[i % 9][i / 9] == 0xFF
}

/// Whether bit `k` of `byte` is set, bit 0 being the lowest.
pub open spec fn bit_set(byte: u8, k: int) -> bool {
    (byte >> (k as u8)) & 1 == 1
}

proof fn lemma_set_bit(byte: u8, k: u8, j: u8)
    requires
        k < 8,
        j < 8,
    ensures
        bit_set(byte | (1u8 << k), j as int) == (j == k || bit_set(byte, j as int)),
        bit_set(0u8, j as int) == false,
{
    assert(((byte | (1u8 << k)) >> j) & 1 == 1 <==> (j == k || (byte >> j) & 1 == 1)) by (bit_vector)
        requires
            k < 8,
            j < 8,
    ;
    assert((0u8 >> j) & 1 != 1) by (bit_vector)
        requires
            j < 8,
    ;
}

/// The picture with one bit for each LED: bit `i % 8` of byte `i / 8` is set
/// exactly if LED number `i` is lit. The bits left over in the last byte are
/// not set.
pub fn pack_matrix(matrix: &[[u8; HEIGHT]; WIDTH]) -> (vals: [u8; IMAGE_BYTES])
    ensures
        forall|i: int|
            0 <= i < 312 ==> #[trigger] bit_set(vals[i / 8], i % 8) == lit(
                Seq::new(9, |x: int| matrix[x]@),
                i,
            ),
{
    let ghost picture = Seq::new(9, |x: int| matrix[x]@);
    let mut vals: [u8; IMAGE_BYTES] = [0x00;IMAGE_BYTES];
    assert forall|i: int| 0 <= i < 312 implies !#[trigger] bit_set(vals[i / 8], i % 8) by {
        lemma_set_bit(0, 0, (i % 8) as u8);
    }
    let mut x: usize = 0;
    while x < WIDTH
        invariant
            x <= WIDTH,
            picture == Seq::new(9, |x: int| matrix[x]@),
            forall|i: int|
                0 <= i < 312 ==> #[trigger] bit_set(vals[i / 8], i % 8) == (lit(picture, i) && i % 9
                    < x),
        decreases WIDTH - x,
    {
        let mut y: usize = 0;
        while y < HEIGHT
            invariant
                x < WIDTH,
                y <= HEIGHT,
                picture == Seq::new(9, |x: int| matrix[x]@),
                forall|i: int|
                    0 <= i < 312 ==> #[trigger] bit_set(vals[i / 8], i % 8) == (lit(picture, i) && (
                    i % 9 < x || (i % 9 == x && i / 9 < y))),
            decreases HEIGHT - y,
        {
            let i = x + 9 * y;
            if matrix[x][y] == 0xFF {
                let ghost before = vals;
                let byte = vals[i / 8];
                vals[i / 8] = byte | (1u8 << (i % 8));
                assert forall|j: int| 0 <= j < 312 implies #[trigger] bit_set(vals[j / 8], j % 8)
                    == (lit(picture, j) && (j % 9 < x || (j % 9 == x && j / 9 < y + 1))) by {
                    assert(bit_set(before[j / 8], j % 8) == (lit(picture, j) && (j % 9 < x || (j % 9
                        == x && j / 9 < y))));
                    if j / 8 == i / 8 {
                        lemma_set_bit(byte, (i % 8) as u8, (j % 8) as u8);
                    }
                }
            }
            y += 1;
        }
        x += 1;
    }
    vals
}

/// The frame that shows `matrix`, one bit for each LED.
pub fn render_matrix(matrix: &[[u8; HEIGHT]; WIDTH]) -> (bytes: Vec<u8>)
    ensures
        bytes@.len() == 42,
        bytes@.subrange(0, 3) == seq![0x32u8, 0xACu8, 0x06u8],
        forall|i: int|
            0 <= i < 312 ==> #[trigger] bit_set(bytes@[3 + i / 8], i % 8) == lit(
                Seq::new(9, |x: int| matrix[x]@),
                i,
            ),
{
    let vals = pack_matrix(matrix);
    let bytes = simple_cmd(Command::DisplayBwImage, vals.as_slice());
    assert(bytes@.subrange(0, 3) =~= seq![0x32u8, 0xACu8, 0x06u8]);
    assert forall|i: int| 0 <= i < 312 implies #[trigger] bit_set(bytes@[3 + i / 8], i % 8) == lit(
        Seq::new(9, |x: int| matrix[x]@),
        i,
    ) by {
        assert(bytes@[3 + i / 8] == vals[i / 8]);
        assert(bit_set(vals[i / 8], i % 8) == lit(Seq::new(9, |x: int| matrix[x]@), i));
    }
    bytes
}

impl Grid {
    /// Lights the LED of `block`, if it has one.
    ///
    /// The column of the block is counted from `left`, the grid column that
    /// the first column of the module shows. With `green_only` set, only a
    /// green block is shown; without it a red or a yellow one is shown too.
    /// A block outside the module is not shown.
    pub fn render_block(&mut self, block: &Block, left: u8, green_only: bool)
        ensures
            final(self)@ == (if shows(*block, left, green_only) {
                old(self)@.update(
                    block.position.x - left,
                    old(self)@[block.position.x - left].update(block.position.y as int, 0xFFu8),
                )
            } else {
                old(self)@
            }),
    {
        let ghost orig = self@;
        if green_only && block.colour != Colour::Green {
            assert(self@ =~~= orig);
            return ;
        }
        if block.position.x < left {
            assert(self@ =~~= orig);
            return ;
        }
        let x = (block.position.x - left) as usize;
        let y = block.position.y as usize;
        if x >= WIDTH || y >= HEIGHT {
            assert(self@ =~~= orig);
            return ;
        }
        let value: u8 = match block.colour {
            Colour::Red => 0xFF,
            Colour::Yellow => 0xFF,
            Colour::Green => 0xFF,
            _ => {
                assert(self@ =~~= orig);
                return ;
            },
        };
        self.0[x][y] = value;
        assert(self@ =~~= orig.update(x as int, orig[x as int].update(y as int, 0xFFu8)));
    }
}

/// Whether a block has an LED on a module whose first column shows the grid
/// column `left`.
pub open spec fn shows(block: Block, left: u8, green_only: bool) -> bool {
    &&& block.colour == Colour::Green || (!green_only && (block.colour == Colour::Red
        || block.colour == Colour::Yellow))
    &&& left <= block.position.x < left + 9
    &&& block.position.y < 34
}

/// The USB ids of a device.
#[derive(Clone, Copy, Debug, PartialEq, Eq, Structural)]
pub struct UsbId {
    pub vid: u16,
    pub pid: u16,
}

/// A serial port: its name and, if it is a USB port, the ids of the device.
#[derive(Clone, Debug)]
pub struct PortInfo {
    pub port_name: String,
    pub usb: Option<UsbId>,
}

/// Whether a product id is one that is looked for: the given one, or, when
/// none is given, one of the known modules.
pub open spec fn accepts_pid(wanted: Option<u16>, pid: u16) -> bool {
    match wanted {
        Some(wanted) => pid == wanted,
        None => pid == LED_MATRIX_PID || pid == 0x22 || pid == 0xFF,
    }
}

/// Whether a port is one of a module with a product id that is looked for.
pub open spec fn is_module(port: PortInfo, wanted: Option<u16>) -> bool {
    port.usb matches Some(id) && id.vid == FRAMEWORK_VID && accepts_pid(wanted, id.pid)
}

/// The names of the ports among the first `n` of `ports` that belong to a
/// module, in the order of the list.
pub open spec fn module_names(ports: Seq<PortInfo>, wanted: Option<u16>, n: int) -> Seq<Seq<char>>
    decreases n,
{
    if n <= 0 {
        Seq::empty()
    } else if is_module(ports[n - 1], wanted) {
        module_names(ports, wanted, n - 1).push(ports[n - 1].port_name@)
    } else {
        module_names(ports, wanted, n - 1)
    }
}

/// Whether one of the ports has the given name.
pub open spec fn has_port(ports: Seq<PortInfo>, name: Seq<char>) -> bool {
    exists|i: int| 0 <= i < ports.len() && (#[trigger] ports[i]).port_name@ == name
}

/// The names that [`match_serialdevs`] picks: the requested name if a port
/// has it, and no name if none has; without a requested name, the names of
/// the ports of modules.
pub open spec fn matched_names(
    ports: Seq<PortInfo>,
    requested: Option<Seq<char>>,
    pid: Option<u16>,
) -> Seq<Seq<char>> {
    match requested {
        Some(name) => if has_port(ports, name) {
            seq![name]
        } else {
            Seq::empty()
        },
        None => module_names(ports, pid, ports.len() as int),
    }
}

/// The names of a list of strings.
pub open spec fn names(list: Seq<String>) -> Seq<Seq<char>> {
    Seq::new(list.len(), |i: int| list[i]@)
}

/// Picks the serial ports to talk to: the one called `requested`, or, when
/// no name is requested, those of the modules with product id `pid`, or of
/// the known modules when no id is given.
pub fn match_serialdevs(ports: &[PortInfo], requested: &Option<String>, pid: Option<u16>) -> (devs:
    Vec<String>)
    ensures
        names(devs@) == matched_names(
            ports@,
            match requested {
                Some(name) => Some(name@),
                None => None,
            },
            pid,
        ),
{
    if let Some(name) = requested {
        let mut i: usize = 0;
        while i < ports.len()
            invariant
                i <= ports@.len(),
                *requested == Some(*name),
                forall|j: int| 0 <= j < i ==> (#[trigger] ports@[j]).port_name@ != name@,
            decreases ports@.len() - i,
        {
            if *name == ports[i].port_name {
                let mut devs: Vec<String> = Vec::new();
                devs.push(ports[i].port_name.clone());
                assert(names(devs@) =~= seq![name@]);
                assert(ports@[i as int].port_name@ == name@);
                return devs;
            }
            i += 1;
        }
        let devs: Vec<String> = Vec::new();
        assert(names(devs@) =~= Seq::empty());
        devs
    } else {
        let mut compatible_devs: Vec<String> = Vec::new();
        let mut i: usize = 0;
        assert(names(compatible_devs@) =~= module_names(ports@, pid, 0));
        while i < ports.len()
            invariant
                i <= ports@.len(),
                *requested == None::<String>,
                names(compatible_devs@) == module_names(ports@, pid, i as int),
            decreases ports@.len() - i,
        {
            if let Some(id) = ports[i].usb {
                let accepted = match pid {
                    Some(pid) => id.pid == pid,
                    None => id.pid == LED_MATRIX_PID || id.pid == 0x22 || id.pid == 0xFF,
                };
                if id.vid == FRAMEWORK_VID && accepted {
                    let ghost before = compatible_devs@;
                    compatible_devs.push(ports[i].port_name.clone());
                    assert(names(compatible_devs@) =~= names(before).push(ports@[i as int].port_name@));
                }
            }
            i += 1;
        }
        compatible_devs
    }
}

/// How a search for modules goes on after a look at the ports: with
/// `Some` of the ports found and of whether the search had to wait, when it
/// is over, or with `None`, when it has to wait and look again.
///
/// The search is over when a module is found, or when it is not to wait.
pub fn find_serialdevs(ports: &[PortInfo], wait_for_device: bool, waited: bool) -> (found: Option<
    (Vec<String>, bool),
>)
    ensures
        match found {
            Some((devs, has_waited)) => {
                &&& names(devs@) == matched_names(ports@, None, Some(LED_MATRIX_PID))
                &&& has_waited == waited
                &&& devs@.len() > 0 || !wait_for_device
            },
            None => {
                &&& wait_for_device
                &&& matched_names(ports@, None, Some(LED_MATRIX_PID)).len() == 0
            },
        },
{
    let serialdevs = match_serialdevs(ports, &None, Some(LED_MATRIX_PID));
    assert(names(serialdevs@).len() == serialdevs@.len());
    if serialdevs.is_empty() && wait_for_device {
        None
    } else {
        Some((serialdevs, waited))
    }
}

} // verus!
