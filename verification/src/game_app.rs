use vstd::prelude::*;

use crate::cpu::{bit_of, cpu_at_boot, cpu_wf, cycle_step, is_bit_set, Cpu, CpuView};
use crate::custom_errors::EmulationError;
use crate::joypad::{spec_update_input, PressedButtons};
use crate::mbc::mbc1::{initial_mbc1, Mbc1};
use crate::mbc::mbc3::{initial_mbc3, Mbc3};
use crate::mbc::mbc5::{initial_mbc5, Mbc5};
use crate::mbc::no_mbc::{initial_no_mbc, NoMbc};
use crate::mbc::{Cartridge, CartridgeView};
use crate::mmu::{fresh_mmu, Mmu, MmuView};

verus! {

/// Why a ROM could not be loaded, or a saved state written or read back.
#[derive(PartialEq, Eq, Structural, Clone, Copy, Debug)]
pub enum LoadRomError {
    CpuDoesNotExist,
    PathNotChosen,
    IoError,
    RomIsTooSmall,
    MBCNotSupported(u8),
    CouldNotCreateFile,
    CouldNotSerializeCpu,
    CouldNotDeserializeCpu,
}

/// Whether the header asks for a Game Boy (DMG) only game: bit 7 of the CGB flag (0x143) is clear.
pub open spec fn is_dmg_rom(rom: Seq<u8>) -> bool {
    rom[0x143] & 0x80 == 0
}

/// The cartridge that the type code at 0x147 selects, built from the image; none for the
/// codes this emulator does not support.
pub open spec fn cartridge_for(rom: Seq<u8>) -> Option<CartridgeView> {
    let code = rom[0x147];
    if code == 0 {
        Some(CartridgeView::NoMbc(initial_no_mbc(rom)))
    } else if 1 <= code <= 3 {
        Some(CartridgeView::Mbc1(initial_mbc1(rom)))
    } else if 0x0F <= code <= 0x13 {
        Some(CartridgeView::Mbc3(initial_mbc3(rom)))
    } else if 0x19 <= code <= 0x1E {
        Some(CartridgeView::Mbc5(initial_mbc5(rom)))
    } else {
        None
    }
}

/// The images whose cartridge can be built: a ROM-only image fits the 32 KiB of ROM, and the
/// others have the ROM size code (0x148) and RAM size code (0x149) bytes, with a ROM size
/// their controller handles.
pub open spec fn header_supported(rom: Seq<u8>) -> bool {
    rom.len() > 0x147 ==> {
        let code = rom[0x147];
        &&& code == 0 ==> 0x149 < rom.len() <= 0x8000
        &&& 1 <= code <= 3 ==> rom.len() > 0x149 && rom[0x148] <= 4
        &&& 0x0F <= code <= 0x13 ==> rom.len() > 0x149 && rom[0x148] <= 6
        &&& 0x19 <= code <= 0x1E ==> rom.len() > 0x149 && rom[0x148] <= 8
    }
}

/// Tells whether `load_cpu_with_rom` can build the cartridge of `rom`.
pub fn rom_header_is_supported(rom: &Vec<u8>) -> (r: bool)
    ensures
        r == header_supported(rom@),
{
    if rom.len() <= 0x147 {
        return true;
    }
    let code = rom[0x147];
    if code == 0 {
        0x149 < rom.len() && rom.len() <= 0x8000
    } else if 1 <= code && code <= 3 {
        rom.len() > 0x149 && rom[0x148] <= 4
    } else if 0x0F <= code && code <= 0x13 {
        rom.len() > 0x149 && rom[0x148] <= 6
    } else if 0x19 <= code && code <= 0x1E {
        rom.len() > 0x149 && rom[0x148] <= 8
    } else {
        true
    }
}

/// Builds a machine around a ROM image: the header chooses the cartridge type and whether
/// the game is DMG only; the CPU starts as the boot ROM leaves it.
pub fn load_cpu_with_rom(total_rom: Vec<u8>) -> (r: Result<Option<Cpu>, LoadRomError>)
    requires
        header_supported(total_rom@),
    ensures
        total_rom@.len() <= 0x147 ==> r == Err::<Option<Cpu>, LoadRomError>(LoadRomError::RomIsTooSmall),
        total_rom@.len() > 0x147 ==> match cartridge_for(total_rom@) {
            None => r == Err::<Option<Cpu>, LoadRomError>(LoadRomError::MBCNotSupported(total_rom@[0x147])),
            Some(cart) => r matches Ok(Some(cpu)) && exists|m: MmuView|
                #[trigger] fresh_mmu(m, cart, is_dmg_rom(total_rom@)) && cpu@ == cpu_at_boot(m),
        },
        r matches Ok(Some(cpu)) ==> cpu_wf(cpu@),
{
    if total_rom.len() <= 0x143 {
        return Err(LoadRomError::RomIsTooSmall);
    }
    let is_dmg_game = total_rom[0x143] & 0x80 == 0;
    if total_rom.len() <= 0x147 {
        return Err(LoadRomError::RomIsTooSmall);
    }
    let mbc_type_code = total_rom[0x147];
    let ghost rom = total_rom@;
    let mbc = if mbc_type_code == 0 {
        Cartridge::NoMbc(NoMbc::new(total_rom))
    } else if 1 <= mbc_type_code && mbc_type_code <= 3 {
        Cartridge::Mbc1(Mbc1::new(total_rom))
    } else if 0x0F <= mbc_type_code && mbc_type_code <= 0x13 {
        Cartridge::Mbc3(Mbc3::new(total_rom))
    } else if 0x19 <= mbc_type_code && mbc_type_code <= 0x1E {
        Cartridge::Mbc5(Mbc5::new(total_rom))
    } else {
        return Err(LoadRomError::MBCNotSupported(mbc_type_code));
    };
    let mmu = Mmu::new(mbc, is_dmg_game);
    let ghost m = mmu@;
    let cpu = Cpu::new(mmu);
    proof {
        assert(fresh_mmu(m, cartridge_for(rom)->Some_0, is_dmg_rom(rom)));
    }
    Ok(Some(cpu))
}

/// `n` cycles from `c`, with the t-cycles they took together.
pub open spec fn run_cycles(c: CpuView, n: nat) -> Result<(CpuView, int), EmulationError>
    decreases n,
{
    if n == 0 {
        Ok((c, 0))
    } else {
        match run_cycles(c, (n - 1) as nat) {
            Err(e) => Err(e),
            Ok((c1, t)) => match cycle_step(c1) {
                Err(e) => Err(e),
                Ok((c2, d)) => Ok((c2, t + d)),
            },
        }
    }
}

/// The t-cycles of a frame: 70225, twice that in double speed mode (bit 7 of KEY1).
pub open spec fn frame_length(key1: u8) -> int {
    if bit_of(key1, 7) { 140450 } else { 70225 }
}

/// The machine after the joypad has taken in the pressed buttons.
pub open spec fn with_input(c: CpuView, pressed: PressedButtons) -> CpuView {
    CpuView { mmu: MmuView { joypad: spec_update_input(c.mmu.joypad, pressed), ..c.mmu }, ..c }
}

/// Running cycles from `c` stops after `n` of them: the ones before left the frame unfinished,
/// and the `n`-th either finished it, leaving the machine in `after`, or failed with the
/// error `r` reports.
pub open spec fn frame_ends_after(
    c: CpuView,
    limit: int,
    n: nat,
    r: Result<(), EmulationError>,
    after: CpuView,
) -> bool {
    &&& forall|k: nat| k < n ==> (#[trigger] run_cycles(c, k) matches Ok((_, t)) && t < limit)
    &&& match run_cycles(c, n) {
        Ok((c2, t)) => r is Ok && after == c2 && t >= limit,
        Err(e) => r == Err::<(), EmulationError>(e),
    }
}

/// Runs one frame: the joypad takes in the pressed buttons, then the CPU cycles until a
/// frame's t-cycles have passed.
pub fn run_frame(cpu: &mut Cpu, pressed: &PressedButtons) -> (r: Result<(), EmulationError>)
    requires
        cpu_wf(old(cpu)@),
        old(cpu).delta_t_cycles <= i32::MAX - 64,
    ensures
        ({
            let c0 = with_input(old(cpu)@, *pressed);
            exists|n: nat| #[trigger] frame_ends_after(c0, frame_length(c0.mmu.key1), n, r, final(cpu)@)
        }),
        r is Ok ==> cpu_wf(final(cpu)@),
{
    cpu.mmu.joypad.update_input(pressed, &mut cpu.interrupt_handler);
    let ghost c0 = cpu@;
    let cycle_limit: i32 = if is_bit_set(cpu.mmu.key1, 7) { 70225 * 2 } else { 70225 };
    let mut ran_cycles: i32 = 0;
    let ghost mut n: nat = 0;
    assert(run_cycles(c0, 0) == Ok::<(CpuView, int), EmulationError>((c0, 0)));
    while ran_cycles < cycle_limit
        invariant
            c0 == with_input(old(cpu)@, *pressed),
            cycle_limit == frame_length(c0.mmu.key1),
            run_cycles(c0, n) == Ok::<(CpuView, int), EmulationError>((cpu@, ran_cycles as int)),
            forall|k: nat| k < n ==> (#[trigger] run_cycles(c0, k) matches Ok((_, t)) && t < cycle_limit),
            cpu_wf(cpu@),
            cpu.delta_t_cycles <= i32::MAX - 64,
            ran_cycles == 0 || cpu.delta_t_cycles == 0,
            0 <= ran_cycles,
        decreases if ran_cycles < cycle_limit { cycle_limit - ran_cycles } else { 0 },
    {
        let ghost before = cpu@;
        match cpu.cycle() {
            Ok(d) => {
                ran_cycles = ran_cycles + d;
                proof {
                    assert(run_cycles(c0, n + 1) == Ok::<(CpuView, int), EmulationError>((cpu@, ran_cycles as int)));
                    n = n + 1;
                }
            },
            Err(e) => {
                proof {
                    assert(run_cycles(c0, n + 1) == Err::<(CpuView, int), EmulationError>(e));
                    assert(frame_ends_after(c0, frame_length(c0.mmu.key1), n + 1, Err(e), cpu@));
                }
                return Err(e);
            },
        }
    }
    proof {
        assert(frame_ends_after(c0, frame_length(c0.mmu.key1), n, Ok(()), cpu@));
    }
    Ok(())
}

/// What the front end keeps between frames.
#[derive(PartialEq, Eq, Structural, Clone, Copy, Debug)]
pub struct FrontEndState {
    pub paused: bool,
    pub double_speed: bool,
}

/// The keyboard as the front end sees it in a frame.
#[derive(PartialEq, Eq, Structural, Clone, Copy, Debug)]
pub struct KeyboardInput {
    pub shift_held: bool,
    pub ctrl_held: bool,
    pub space_pressed: bool,
    pub o_pressed: bool,
    pub s_pressed: bool,
}

/// The file operations the keyboard asks for.
#[derive(PartialEq, Eq, Structural, Clone, Copy, Debug)]
pub struct InputRequests {
    pub open_rom: bool,
    pub save_state: bool,
}

/// The front end after a frame's keyboard input: Shift held runs at double speed, Space
/// toggles the pause.
pub open spec fn next_front_end(state: FrontEndState, keys: KeyboardInput) -> FrontEndState {
    FrontEndState { paused: state.paused != keys.space_pressed, double_speed: keys.shift_held }
}

/// The keyboard shortcuts: Shift held runs at double speed, Space toggles the pause,
/// Ctrl-O opens a ROM and Ctrl-S saves the machine's state.
pub fn handle_input(state: &FrontEndState, keys: &KeyboardInput) -> (r: (FrontEndState, InputRequests))
    ensures
        r.0 == next_front_end(*state, *keys),
        r.1 == (InputRequests {
            open_rom: keys.ctrl_held && keys.o_pressed,
            save_state: keys.ctrl_held && keys.s_pressed,
        }),
{
    let double_speed = keys.shift_held;
    let mut paused = state.paused;
    if keys.space_pressed {
        paused = !paused;
    }
    (
        FrontEndState { paused, double_speed },
        InputRequests { open_rom: keys.ctrl_held && keys.o_pressed, save_state: keys.ctrl_held && keys.s_pressed },
    )
}

/// The frames to run in a refresh of the window: none while paused, two at double speed.
pub fn frames_to_run(state: &FrontEndState) -> (r: u8)
    ensures
        r == (if state.paused { 0u8 } else if state.double_speed { 2u8 } else { 1u8 }),
{
    if state.paused {
        0
    } else if state.double_speed {
        2
    } else {
        1
    }
}

/// Space pressed in two frames leaves the pause as it was, after toggling it once.
pub proof fn law_pause_toggles(state: FrontEndState, keys: KeyboardInput)
    requires
        keys.space_pressed,
    ensures
        next_front_end(state, keys).paused == !state.paused,
        next_front_end(next_front_end(state, keys), keys).paused == state.paused,
{
}

} // verus!
