use vstd::prelude::*;

verus! {

/// The image files of the six faces of a sky box.
pub struct SkyBoxImages {
    pub right: String,
    pub left: String,
    pub top: String,
    pub bottom: String,
    pub front: String,
    pub back: String,
}

/// The RGBA bytes of a `width` by `height` image filled with `color`, row by
/// row: byte `i` is component `i % 4` of the color.
pub fn solid_color_bytes(color: [u8; 4], width: u32, height: u32) -> (r: Vec<u8>)
    requires
        width * height * 4 <= u32::MAX,
    ensures
        r@.len() == width * height * 4,
        forall|i: int| 0 <= i < r@.len() ==> #[trigger] r@[i] == color[i % 4],
{
    let size = width * height * 4;
    let mut bytes: Vec<u8> = Vec::with_capacity(size as usize);
    let mut row: u32 = 0;
    while row < height
        invariant
            row <= height,
            width * height * 4 <= u32::MAX,
            bytes@.len() == row * width * 4,
            forall|i: int| 0 <= i < bytes@.len() ==> #[trigger] bytes@[i] == color[i % 4],
        decreases height - row,
    {
        let mut col: u32 = 0;
        while col < width
            invariant
                row < height,
                col <= width,
                width * height * 4 <= u32::MAX,
                bytes@.len() == row * width * 4 + col * 4,
                forall|i: int| 0 <= i < bytes@.len() ==> #[trigger] bytes@[i] == color[i % 4],
            decreases width - col,
        {
            let ghost base = bytes@.len();
            assert(base % 4 == 0) by (nonlinear_arith)
                requires
                    base == row * width * 4 + col * 4,
            ;
            bytes.push(color[0]);
            bytes.push(color[1]);
            bytes.push(color[2]);
            bytes.push(color[3]);
            proof {
                assert forall|i: int| 0 <= i < bytes@.len() implies #[trigger] bytes@[i] == color[i
                    % 4] by {
                    if i >= base {
                        assert((i - base) % 4 == i % 4) by (nonlinear_arith)
                            requires
                                base % 4 == 0,
                                base <= i,
                        ;
                    }
                }
            }
            col = col + 1;
        }
        assert((row + 1) * width * 4 == row * width * 4 + width * 4) by (nonlinear_arith);
        row = row + 1;
    }
    assert(height * width * 4 == width * height * 4) by (nonlinear_arith);
    bytes
}

/// One blit of a mipmap chain: the source level and its extent, the
/// destination level and its extent.
#[derive(Clone, Copy, PartialEq, Eq, Structural, Debug)]
pub struct MipBlit {
    pub src_level: u32,
    pub src_width: i32,
    pub src_height: i32,
    pub dst_level: u32,
    pub dst_width: i32,
    pub dst_height: i32,
}

/// The extent of the next level: half of a size above one, one otherwise.
pub open spec fn next_mip_size(s: i32) -> i32 {
    if s > 1 {
        (s / 2) as i32
    } else {
        1
    }
}

/// A size halved `n` times, where it is above one each time.
pub open spec fn mip_size(s: i32, n: nat) -> i32
    decreases n,
{
    if n == 0 {
        s
    } else {
        let p = mip_size(s, (n - 1) as nat);
        if p > 1 {
            (p / 2) as i32
        } else {
            p
        }
    }
}

/// Blit `i` of the mipmap chain of a `width` by `height` image: it reads
/// level `i` and writes level `i + 1`, each at its halved extent.
pub open spec fn blit_spec(width: i32, height: i32, i: int) -> MipBlit {
    MipBlit {
        src_level: i as u32,
        src_width: mip_size(width, i as nat),
        src_height: mip_size(height, i as nat),
        dst_level: (i + 1) as u32,
        dst_width: next_mip_size(mip_size(width, i as nat)),
        dst_height: next_mip_size(mip_size(height, i as nat)),
    }
}

/// The blits that build levels `1` to `mip_level - 1` of a mipmap chain for
/// an image of `width` by `height`: blit `i` reads level `i` and writes level
/// `i + 1`.
pub fn mip_blits(width: i32, height: i32, mip_level: u32) -> (r: Vec<MipBlit>)
    ensures
        r@.len() == (if mip_level > 0 {
            mip_level - 1
        } else {
            0
        }),
        forall|i: int| 0 <= i < r@.len() ==> #[trigger] r@[i] == blit_spec(width, height, i),
{
    let mut blits: Vec<MipBlit> = Vec::new();
    let mut mip_width = width;
    let mut mip_height = height;
    let mut i: u32 = 1;
    while i < mip_level
        invariant
            1 <= i,
            mip_level > 0 ==> i <= mip_level,
            mip_level == 0 ==> i == 1,
            blits@.len() == i - 1,
            mip_width == mip_size(width, (i - 1) as nat),
            mip_height == mip_size(height, (i - 1) as nat),
            forall|j: int| 0 <= j < blits@.len() ==> #[trigger] blits@[j] == blit_spec(width, height, j),
        decreases mip_level - i,
    {
        blits.push(
            MipBlit {
                src_level: i - 1,
                src_width: mip_width,
                src_height: mip_height,
                dst_level: i,
                dst_width: if mip_width > 1 {
                    mip_width / 2
                } else {
                    1
                },
                dst_height: if mip_height > 1 {
                    mip_height / 2
                } else {
                    1
                },
            },
        );
        if mip_width > 1 {
            mip_width = mip_width / 2;
        }
        if mip_height > 1 {
            mip_height = mip_height / 2;
        }
        i = i + 1;
    }
    blits
}

/// The blits of a mipmap chain form a chain: the first reads the full
/// image at level zero, each later blit reads the level that the blit before
/// it wrote and, for an image of positive extent, exactly the extent it
/// wrote; each blit writes the next level at half the extent it reads
/// (rounded down), or one where that extent is one or less.
pub proof fn lemma_mip_chain(width: i32, height: i32, i: int)
    requires
        0 <= i,
    ensures
        blit_spec(width, height, 0).src_width == width,
        blit_spec(width, height, 0).src_height == height,
        blit_spec(width, height, 0).src_level == 0,
        i > 0 && width > 0 ==> blit_spec(width, height, i).src_width == blit_spec(
            width,
            height,
            i - 1,
        ).dst_width,
        i > 0 && height > 0 ==> blit_spec(width, height, i).src_height == blit_spec(
            width,
            height,
            i - 1,
        ).dst_height,
        i > 0 ==> blit_spec(width, height, i).src_level == blit_spec(width, height, i - 1).dst_level,
        blit_spec(width, height, i).dst_width == (if blit_spec(width, height, i).src_width > 1 {
            blit_spec(width, height, i).src_width / 2
        } else {
            1
        }),
        blit_spec(width, height, i).dst_height == (if blit_spec(width, height, i).src_height > 1 {
            blit_spec(width, height, i).src_height / 2
        } else {
            1
        }),
{
    if i > 0 {
        assert(((i - 1) as nat) == (i as nat) - 1);
        if width > 0 {
            lemma_mip_size_positive(width, (i - 1) as nat);
        }
        if height > 0 {
            lemma_mip_size_positive(height, (i - 1) as nat);
        }
    }
}

/// Halving a positive extent, where it is above one, keeps it positive.
proof fn lemma_mip_size_positive(s: i32, n: nat)
    requires
        s > 0,
    ensures
        mip_size(s, n) > 0,
    decreases n,
{
    if n > 0 {
        lemma_mip_size_positive(s, (n - 1) as nat);
    }
}

/// The layout of one level of an image, as mipmap generation moves it.
#[derive(Clone, Copy, PartialEq, Eq, Structural, Debug)]
pub enum ImageLayout {
    /// Written by copies and blits.
    TransferDst,
    /// Read by blits.
    TransferSrc,
    /// Read by shaders.
    ShaderReadOnly,
}

/// One command of mipmap generation: a layout change of one level, or a
/// blit from one level to the next.
#[derive(Clone, Copy, PartialEq, Eq, Structural, Debug)]
pub enum MipCommand {
    Barrier { level: u32, from: ImageLayout, to: ImageLayout },
    Blit(MipBlit),
}

/// The commands for the first `count` blits of the chain, in order: for
/// each level, make it a blit source, blit it into the next level, and hand
/// it to shaders.
pub open spec fn mip_steps(width: i32, height: i32, count: nat) -> Seq<MipCommand>
    decreases count,
{
    if count == 0 {
        Seq::empty()
    } else {
        let i = count - 1;
        mip_steps(width, height, (count - 1) as nat).push(
            MipCommand::Barrier {
                level: i as u32,
                from: ImageLayout::TransferDst,
                to: ImageLayout::TransferSrc,
            },
        ).push(MipCommand::Blit(blit_spec(width, height, i))).push(
            MipCommand::Barrier {
                level: i as u32,
                from: ImageLayout::TransferSrc,
                to: ImageLayout::ShaderReadOnly,
            },
        )
    }
}

/// The commands that generate the mipmaps of a `width` by `height` image
/// with `mip_level` levels: the steps of each blit, and then the last level
/// handed to shaders.
pub open spec fn mip_commands_spec(width: i32, height: i32, mip_level: u32) -> Seq<MipCommand> {
    mip_steps(width, height, (mip_level - 1) as nat).push(
        MipCommand::Barrier {
            level: (mip_level - 1) as u32,
            from: ImageLayout::TransferDst,
            to: ImageLayout::ShaderReadOnly,
        },
    )
}

/// The layouts after one command.
pub open spec fn apply_command(layouts: Map<u32, ImageLayout>, c: MipCommand) -> Map<
    u32,
    ImageLayout,
> {
    match c {
        MipCommand::Barrier { level, from, to } => layouts.insert(level, to),
        MipCommand::Blit(_) => layouts,
    }
}

/// A command fits the layouts it meets: a barrier starts from the level's
/// layout, and a blit reads a level that is a blit source and writes a
/// level that is a blit destination.
pub open spec fn command_fits(layouts: Map<u32, ImageLayout>, c: MipCommand) -> bool {
    match c {
        MipCommand::Barrier { level, from, to } => layouts.contains_key(level) && layouts[level]
            == from,
        MipCommand::Blit(b) => {
            &&& layouts.contains_key(b.src_level)
            &&& layouts[b.src_level] == ImageLayout::TransferSrc
            &&& layouts.contains_key(b.dst_level)
            &&& layouts[b.dst_level] == ImageLayout::TransferDst
        },
    }
}

/// The layouts after a sequence of commands.
pub open spec fn run_commands(cmds: Seq<MipCommand>, start: Map<u32, ImageLayout>) -> Map<
    u32,
    ImageLayout,
>
    decreases cmds.len(),
{
    if cmds.len() == 0 {
        start
    } else {
        apply_command(run_commands(cmds.drop_last(), start), cmds.last())
    }
}

/// Every command of the sequence fits the layouts it meets.
pub open spec fn commands_fit(cmds: Seq<MipCommand>, start: Map<u32, ImageLayout>) -> bool
    decreases cmds.len(),
{
    if cmds.len() == 0 {
        true
    } else {
        commands_fit(cmds.drop_last(), start) && command_fits(
            run_commands(cmds.drop_last(), start),
            cmds.last(),
        )
    }
}

/// Every level below `mip_level` in the layout `layout`.
pub open spec fn all_levels(mip_level: u32, layout: ImageLayout) -> Map<u32, ImageLayout> {
    Map::new(|l: u32| l < mip_level, |l: u32| layout)
}

/// After the steps of the first `count` blits, starting with every level a
/// blit destination, the levels below `count` are read by shaders and the
/// others are still blit destinations, and every step fits.
proof fn lemma_mip_steps(width: i32, height: i32, mip_level: u32, count: nat)
    requires
        count < mip_level,
    ensures
        commands_fit(mip_steps(width, height, count), all_levels(mip_level, ImageLayout::TransferDst)),
        run_commands(mip_steps(width, height, count), all_levels(mip_level, ImageLayout::TransferDst))
            == Map::new(
            |l: u32| l < mip_level,
            |l: u32|
                if l < count {
                    ImageLayout::ShaderReadOnly
                } else {
                    ImageLayout::TransferDst
                },
        ),
    decreases count,
{
    let start = all_levels(mip_level, ImageLayout::TransferDst);
    if count == 0 {
        assert(run_commands(mip_steps(width, height, 0), start) =~= Map::new(
            |l: u32| l < mip_level,
            |l: u32|
                if l < 0 {
                    ImageLayout::ShaderReadOnly
                } else {
                    ImageLayout::TransferDst
                },
        ));
    } else {
        let c = (count - 1) as nat;
        lemma_mip_steps(width, height, mip_level, c);
        let prev = mip_steps(width, height, c);
        let s1 = prev.push(
            MipCommand::Barrier {
                level: c as u32,
                from: ImageLayout::TransferDst,
                to: ImageLayout::TransferSrc,
            },
        );
        let s2 = s1.push(MipCommand::Blit(blit_spec(width, height, c as int)));
        let s3 = mip_steps(width, height, count);
        assert(s3 == s2.push(
            MipCommand::Barrier {
                level: c as u32,
                from: ImageLayout::TransferSrc,
                to: ImageLayout::ShaderReadOnly,
            },
        ));
        assert(s3.drop_last() == s2);
        assert(s2.drop_last() == s1);
        assert(s1.drop_last() == prev);
        let m0 = run_commands(prev, start);
        let r1 = run_commands(s1, start);
        let r2 = run_commands(s2, start);
        assert(r1 == m0.insert(c as u32, ImageLayout::TransferSrc));
        assert(r2 == r1);
        assert(m0.contains_key(c as u32) && m0[c as u32] == ImageLayout::TransferDst);
        assert(commands_fit(s1, start));
        let b = blit_spec(width, height, c as int);
        assert(b.src_level == c as u32);
        assert(b.dst_level == count as u32);
        assert(m0.contains_key(count as u32) && m0[count as u32] == ImageLayout::TransferDst);
        assert(command_fits(r2, MipCommand::Blit(b)));
        assert(commands_fit(s2, start));
        assert(commands_fit(s3, start));
        assert(run_commands(s3, start) =~= Map::new(
            |l: u32| l < mip_level,
            |l: u32|
                if l < count {
                    ImageLayout::ShaderReadOnly
                } else {
                    ImageLayout::TransferDst
                },
        ));
    }
}

/// Mipmap generation leaves every level read by shaders: starting with every
/// level of an image with `mip_level` levels a blit destination, each
/// command of `mip_commands_spec` fits the layouts it meets, and afterwards
/// every level is in the shader-read layout.
pub proof fn lemma_mip_commands_end_in_shader_read(width: i32, height: i32, mip_level: u32)
    requires
        mip_level > 0,
    ensures
        commands_fit(
            mip_commands_spec(width, height, mip_level),
            all_levels(mip_level, ImageLayout::TransferDst),
        ),
        run_commands(
            mip_commands_spec(width, height, mip_level),
            all_levels(mip_level, ImageLayout::TransferDst),
        ) == all_levels(mip_level, ImageLayout::ShaderReadOnly),
{
    let n = (mip_level - 1) as nat;
    lemma_mip_steps(width, height, mip_level, n);
    let cmds = mip_commands_spec(width, height, mip_level);
    assert(cmds.drop_last() == mip_steps(width, height, n));
    assert(run_commands(cmds, all_levels(mip_level, ImageLayout::TransferDst)) =~= all_levels(
        mip_level,
        ImageLayout::ShaderReadOnly,
    ));
}

/// The commands that generate the mipmaps of a `width` by `height` image
/// with `mip_level` levels.
pub fn mip_commands(width: i32, height: i32, mip_level: u32) -> (r: Vec<MipCommand>)
    requires
        mip_level > 0,
    ensures
        r@ == mip_commands_spec(width, height, mip_level),
{
    let blits = mip_blits(width, height, mip_level);
    let mut cmds: Vec<MipCommand> = Vec::new();
    let mut i: usize = 0;
    while i < blits.len()
        invariant
            i <= blits@.len(),
            blits@.len() == mip_level - 1,
            forall|j: int| 0 <= j < blits@.len() ==> #[trigger] blits@[j] == blit_spec(width, height, j),
            cmds@ == mip_steps(width, height, i as nat),
        decreases blits@.len() - i,
    {
        let blit = blits[i];
        let level = blit.src_level;
        proof {
            assert(blit == blit_spec(width, height, i as int));
        }
        cmds.push(
            MipCommand::Barrier {
                level,
                from: ImageLayout::TransferDst,
                to: ImageLayout::TransferSrc,
            },
        );
        cmds.push(MipCommand::Blit(blit));
        cmds.push(
            MipCommand::Barrier {
                level,
                from: ImageLayout::TransferSrc,
                to: ImageLayout::ShaderReadOnly,
            },
        );
        i = i + 1;
    }
    cmds.push(
        MipCommand::Barrier {
            level: mip_level - 1,
            from: ImageLayout::TransferDst,
            to: ImageLayout::ShaderReadOnly,
        },
    );
    cmds
}

} // verus!
