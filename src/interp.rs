//! The instructions that robots run before a board is drawn.
use vstd::prelude::*;
use crate::board::{Board, Coordinate, Robot};
use crate::world::{palette_loaded, Color, WorldState};

verus! {

/// A robot instruction, with every value already resolved and every file
/// it names already read (`None` where the file could not be read).
pub enum Command {
    /// Stops the robot.
    End,
    /// Stops the robot: nothing can advance it before the board is drawn.
    Wait,
    /// Replaces the font by the bytes of a file.
    LoadCharSet(Option<Vec<u8>>),
    /// Overwrites the leading palette entries from the bytes of a file.
    LoadPalette(Option<Vec<u8>>),
    /// Sets palette entry `.0` to the colour (`.1`, `.2`, `.3`).
    SetColor(i32, i32, i32, i32),
    /// Sets the glyph the robot shows.
    Char(u8),
    /// Sets the colour code of the robot's own cell.
    Color(u8),
    /// Sets the colour code of the player's cell.
    PlayerColor(u8),
    /// Any instruction that does not change what is drawn.
    Other,
}

/// What robots can change before a board is drawn: the font, the palette,
/// the level layer and the glyph of the running robot.
pub struct Scene {
    pub font: Seq<u8>,
    pub colors: Seq<Color>,
    pub level: Seq<(u8, u8, u8)>,
    pub ch: u8,
}

/// The place, in a board's layers, of the cell at `pos`.
pub open spec fn cell_index(pos: Coordinate, width: nat) -> int {
    pos.y * width + pos.x
}

/// The level layer with the colour code of the cell at `pos` set to `c`;
/// unchanged where `pos` lies off the board.
pub open spec fn with_cell_color(level: Seq<(u8, u8, u8)>, pos: Coordinate, c: u8, width: nat, height: nat) -> Seq<(u8, u8, u8)> {
    if pos.x < width && pos.y < height {
        let i = cell_index(pos, width);
        level.update(i, (level[i].0, c, level[i].2))
    } else {
        level
    }
}

/// The board's geometry, as far as instructions see it.
pub struct Frame {
    pub width: nat,
    pub height: nat,
    pub player: Coordinate,
}

/// Whether an instruction stops its robot.
pub open spec fn stops(cmd: Command) -> bool {
    cmd is End || cmd is Wait
}

/// The effect of one instruction run by the robot standing at `pos`.
pub open spec fn step(s: Scene, cmd: Command, pos: Coordinate, f: Frame) -> Scene {
    match cmd {
        Command::LoadCharSet(Some(d)) => if d@.len() == s.font.len() {
            Scene { font: d@, ..s }
        } else {
            s
        },
        Command::LoadPalette(Some(d)) => Scene { colors: palette_loaded(s.colors, d@), ..s },
        Command::SetColor(i, r, g, b) => if 0 <= i < s.colors.len() {
            Scene { colors: s.colors.update(i as int, Color { r: r as u8, g: g as u8, b: b as u8 }), ..s }
        } else {
            s
        },
        Command::Char(c) => Scene { ch: c, ..s },
        Command::Color(c) => Scene { level: with_cell_color(s.level, pos, c, f.width, f.height), ..s },
        Command::PlayerColor(c) => Scene { level: with_cell_color(s.level, f.player, c, f.width, f.height), ..s },
        _ => s,
    }
}

/// The scene after running `prog` up to its first `End` or `Wait`, or to its end.
pub open spec fn run_program(s: Scene, prog: Seq<Command>, pos: Coordinate, f: Frame) -> Scene
    decreases prog.len(),
{
    if prog.len() == 0 || stops(prog[0]) {
        s
    } else {
        run_program(step(s, prog[0], pos, f), prog.drop_first(), pos, f)
    }
}

/// The scene of a world, a board and the glyph of a robot.
pub open spec fn scene_of(w: &WorldState, b: &Board, ch: u8) -> Scene {
    Scene { font: w.charset.data@, colors: w.palette.colors@, level: b.level@, ch }
}

/// The geometry of a board.
pub open spec fn frame_of(b: &Board) -> Frame {
    Frame { width: b.width as nat, height: b.height as nat, player: b.player_pos }
}

/// The board changes only in its level layer.
pub open spec fn same_but_level(a: &Board, b: &Board) -> bool {
    &&& a.width == b.width
    &&& a.height == b.height
    &&& a.under@ == b.under@
    &&& a.overlay == b.overlay
    &&& a.player_pos == b.player_pos
}

/// Sets the colour code of the cell at `pos`, if it lies on the board.
fn set_cell_color(board: &mut Board, pos: Coordinate, c: u8)
    requires
        old(board).level@.len() == old(board).width * old(board).height,
    ensures
        same_but_level(old(board), final(board)),
        final(board).level@ == with_cell_color(old(board).level@, pos, c, old(board).width as nat, old(board).height as nat),
        final(board).level@.len() == old(board).level@.len(),
{
    let len = board.level.len();
    if pos.x < board.width && pos.y < board.height {
        proof {
            vstd::arithmetic::mul::lemma_mul_inequality(pos.y as int + 1, board.height as int, board.width as int);
            vstd::arithmetic::mul::lemma_mul_is_commutative(board.height as int, board.width as int);
            vstd::arithmetic::mul::lemma_mul_is_distributive_add_other_way(board.width as int, pos.y as int, 1);
        }
        let i = pos.y * board.width + pos.x;
        assert(i < len);
        let (id, _, param) = board.level[i];
        board.level.set(i, (id, c, param));
    }
}

/// Runs the robot's program from its start until the first `End` or `Wait`,
/// or to its end, applying the instructions that change the font, the
/// palette, the robot's glyph and the colours of the board.
pub fn run_robot_until_end(world: &mut WorldState, board: &mut Board, robot: &mut Robot)
    requires
        old(board).level@.len() == old(board).width * old(board).height,
    ensures
        scene_of(final(world), final(board), final(robot).ch) == run_program(
            scene_of(old(world), old(board), old(robot).ch),
            old(robot).program@,
            old(robot).position,
            frame_of(old(board)),
        ),
        same_but_level(old(board), final(board)),
        final(board).level@.len() == old(board).level@.len(),
        final(robot).program@ == old(robot).program@,
        final(robot).position == old(robot).position,
{
    let ghost s0 = scene_of(world, board, robot.ch);
    let ghost prog = robot.program@;
    let ghost f = frame_of(board);
    let pos = robot.position;
    let mut i: usize = 0;
    let ghost mut stopped = false;
    assert(prog.subrange(0, prog.len() as int) =~= prog);
    while i < robot.program.len()
        invariant
            stopped ==> i < prog.len() && stops(prog[i as int]),
            robot.program@ == prog,
            robot.position == pos,
            pos == old(robot).position,
            f == frame_of(board),
            same_but_level(old(board), board),
            prog == old(robot).program@,
            s0 == scene_of(old(world), old(board), old(robot).ch),
            board.level@.len() == board.width * board.height,
            i <= prog.len(),
            run_program(scene_of(world, board, robot.ch), prog.subrange(i as int, prog.len() as int), pos, f)
                == run_program(s0, prog, pos, f),
        ensures
            stopped || i == prog.len(),
        decreases prog.len() - i,
    {
        let ghost rest = prog.subrange(i as int, prog.len() as int);
        assert(rest[0] == prog[i as int]);
        assert(rest.drop_first() =~= prog.subrange(i as int + 1, prog.len() as int));
        match &robot.program[i] {
            Command::End | Command::Wait => {
                proof {
                    stopped = true;
                }
                break;
            },
            Command::LoadCharSet(data) => {
                if let Some(d) = data {
                    world.charset.load(d.as_slice());
                }
            },
            Command::LoadPalette(data) => {
                if let Some(d) = data {
                    world.palette.load(d.as_slice());
                }
            },
            Command::SetColor(c, r, g, b) => {
                world.palette.set_color(*c, *r, *g, *b);
            },
            Command::Char(c) => {
                robot.ch = *c;
            },
            Command::Color(c) => {
                set_cell_color(board, pos, *c);
            },
            Command::PlayerColor(c) => {
                let player = board.player_pos;
                set_cell_color(board, player, *c);
            },
            Command::Other => {},
        }
        i += 1;
    }
    proof {
        let rest = prog.subrange(i as int, prog.len() as int);
        if !stopped {
            assert(rest.len() == 0);
        } else {
            assert(rest[0] == prog[i as int]);
        }
    }
}

/// The scene after the first `n` robots have each run their program in turn,
/// each starting from the scene the previous one left, with its own glyph.
pub open spec fn run_robots(s: Scene, robots: Seq<Robot>, n: int, f: Frame) -> Scene
    decreases n,
{
    if n <= 0 {
        s
    } else {
        let prev = run_robots(s, robots, n - 1, f);
        let r = robots[n - 1];
        run_program(Scene { ch: r.ch, ..prev }, r.program@, r.position, f)
    }
}

/// Runs every robot of a board, in order, until its first `End` or `Wait`.
pub fn run_all_robots(world: &mut WorldState, board: &mut Board, robots: &mut Vec<Robot>)
    requires
        old(board).level@.len() == old(board).width * old(board).height,
    ensures
        ({
            let after = run_robots(
                scene_of(old(world), old(board), 0),
                old(robots)@,
                old(robots)@.len() as int,
                frame_of(old(board)),
            );
            &&& final(world).charset.data@ == after.font
            &&& final(world).palette.colors@ == after.colors
            &&& final(board).level@ == after.level
        }),
        same_but_level(old(board), final(board)),
        final(robots)@.len() == old(robots)@.len(),
        forall|j: int|
            0 <= j < old(robots)@.len() ==> {
                &&& (#[trigger] final(robots)@[j]).ch == run_robots(
                    scene_of(old(world), old(board), 0),
                    old(robots)@,
                    j + 1,
                    frame_of(old(board)),
                ).ch
                &&& final(robots)@[j].program@ == old(robots)@[j].program@
                &&& final(robots)@[j].position == old(robots)@[j].position
            },
{
    let ghost s0 = scene_of(world, board, 0);
    let ghost rs = robots@;
    let ghost f = frame_of(board);
    let mut i: usize = 0;
    while i < robots.len()
        invariant
            rs == old(robots)@,
            s0 == scene_of(old(world), old(board), 0),
            f == frame_of(old(board)),
            same_but_level(old(board), board),
            board.level@.len() == board.width * board.height,
            robots@.len() == rs.len(),
            i <= rs.len(),
            ({
                let cur = run_robots(s0, rs, i as int, f);
                &&& world.charset.data@ == cur.font
                &&& world.palette.colors@ == cur.colors
                &&& board.level@ == cur.level
            }),
            forall|j: int| i <= j < rs.len() ==> #[trigger] robots@[j] == rs[j],
            forall|j: int|
                0 <= j < i ==> {
                    &&& (#[trigger] robots@[j]).ch == run_robots(s0, rs, j + 1, f).ch
                    &&& robots@[j].program@ == rs[j].program@
                    &&& robots@[j].position == rs[j].position
                },
        decreases rs.len() - i,
    {
        run_robot_until_end(world, board, &mut robots[i]);
        i += 1;
    }
}

} // verus!
