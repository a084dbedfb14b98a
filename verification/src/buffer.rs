//! Shared-memory buffers that copies of embedded buffers (such as cursor
//! images) are written into before they are attached to desktop surfaces:
//! a cache of reusable buffers, and the byte range copied out of a buffer.

use vstd::prelude::*;

verus! {

/// A shared-memory buffer of the cache, with its pool.
#[derive(Clone, Copy, Debug, PartialEq, Eq, Structural)]
pub struct Buffer {
    /// the desktop compositor released the buffer
    pub free: bool,
    /// size of the pool in bytes
    pub pool_size: i32,
    /// width in pixels
    pub w: i32,
    /// height in pixels
    pub h: i32,
    /// `wl_shm` format
    pub format: u32,
}

/// Failures of writing a buffer.
#[derive(Clone, Copy, Debug, PartialEq, Eq, Structural)]
pub enum BufferError {
    /// the new buffer is not a shared-memory buffer
    NotShm,
    /// the buffer's format is not a `wl_shm` format
    UnsupportedFormat,
    /// the buffer's format is not a `wl_shm` format (after the buffer was resized)
    BadBufferFormat,
}

/// How a buffer is (re)created in its pool.
#[derive(Clone, Copy, Debug, PartialEq, Eq, Structural)]
pub struct BufferLayout {
    /// width in pixels
    pub width: i32,
    /// height in pixels
    pub height: i32,
    /// bytes per row
    pub stride: i32,
    /// `wl_shm` format
    pub format: u32,
}

impl Buffer {
    /// A new free buffer of `x` by `y` pixels of 4 bytes in a pool of just
    /// that size.
    pub fn new(x: i32, y: i32, format: u32) -> (b: Buffer)
        requires
            i32::MIN <= x * y * 4 <= i32::MAX,
        ensures
            b == (Buffer { free: true, pool_size: (x * y * 4) as i32, w: x, h: y, format }),
    {
        let size: i32 = x * y * 4;
        Buffer { free: true, pool_size: size, w: x, h: y, format }
    }

    /// Whether the desktop compositor released the buffer.
    pub fn free(&self) -> (res: bool)
        ensures
            res == self.free,
    {
        self.free
    }

    /// Gets the buffer ready for contents of `width` by `height` pixels of
    /// format `format` (`None` when it is no `wl_shm` format). Only when both
    /// the width and the height differ does the buffer take the new size: the
    /// pool grows to 4 bytes per pixel if it is smaller, and the buffer is
    /// recreated in it (refused for an unknown format). Returns how it was
    /// recreated, if it was.
    pub fn prepare_write(&mut self, width: i32, height: i32, format: Option<u32>) -> (res: Result<
        Option<BufferLayout>,
        BufferError,
    >)
        requires
            (old(self).w != width && old(self).h != height) ==> i32::MIN <= width * height * 4
                <= i32::MAX,
            (old(self).w != width && old(self).h != height && format is Some) ==> i32::MIN <= width
                * 4 <= i32::MAX,
        ensures
            !(old(self).w != width && old(self).h != height) ==> res == Ok::<
                Option<BufferLayout>,
                BufferError,
            >(None) && *final(self) == *old(self),
            (old(self).w != width && old(self).h != height) ==> ({
                let required = width * height * 4;
                let pool = if old(self).pool_size < required {
                    required as i32
                } else {
                    old(self).pool_size
                };
                &&& *final(self) == (Buffer { w: width, h: height, pool_size: pool, ..*old(self) })
                &&& match format {
                    Some(f) => res == Ok::<Option<BufferLayout>, BufferError>(
                        Some(
                            BufferLayout {
                                width,
                                height,
                                stride: (width * 4) as i32,
                                format: f,
                            },
                        ),
                    ),
                    None => res == Err::<Option<BufferLayout>, BufferError>(
                        BufferError::BadBufferFormat,
                    ),
                }
            }),
    {
        if self.w != width && self.h != height {
            self.w = width;
            self.h = height;
            let required: i32 = width * height * 4;
            if self.pool_size < required {
                self.pool_size = required;
            }
            match format {
                Some(f) => {
                    let stride: i32 = width * 4;
                    Ok(Some(BufferLayout { width, height, stride, format: f }))
                },
                None => Err(BufferError::BadBufferFormat),
            }
        } else {
            Ok(None)
        }
    }

    /// The buffer was written and attached: it is taken until the desktop
    /// compositor releases it.
    pub fn mark_taken(&mut self)
        ensures
            *final(self) == (Buffer { free: false, ..*old(self) }),
    {
        self.free = false;
    }
}

/// How a buffer of `w` by `h` pixels is attached to a desktop surface of
/// `wl_surface` version `version`: from version 5 on the buffer goes at the
/// origin and the offset is set apart; the whole buffer is damaged.
#[derive(Clone, Copy, Debug, PartialEq, Eq, Structural)]
pub struct AttachPlan {
    /// x of the attach request
    pub x: i32,
    /// y of the attach request
    pub y: i32,
    /// offset request (x, y), if separate
    pub offset: Option<crate::geometry::Point>,
    /// damaged width
    pub damage_w: i32,
    /// damaged height
    pub damage_h: i32,
}

/// How a buffer of `w` by `h` pixels is attached to a desktop surface of
/// version `version`.
pub open spec fn attach_plan_spec(version: u32, w: i32, h: i32) -> AttachPlan {
    if version >= 5 {
        AttachPlan { x: 0, y: 0, offset: Some(crate::geometry::Point { x: w, y: h }), damage_w: w, damage_h: h }
    } else {
        AttachPlan { x: w, y: h, offset: None, damage_w: w, damage_h: h }
    }
}

/// How a buffer of `w` by `h` pixels is attached to a desktop surface of
/// version `version`.
pub fn attach_plan(version: u32, w: i32, h: i32) -> (plan: AttachPlan)
    ensures
        plan == attach_plan_spec(version, w, h),
{
    if version >= 5 {
        AttachPlan { x: 0, y: 0, offset: Some(crate::geometry::Point { x: w, y: h }), damage_w: w, damage_h: h }
    } else {
        AttachPlan { x: w, y: h, offset: None, damage_w: w, damage_h: h }
    }
}

/// A cache of shared-memory buffers.
#[derive(Debug)]
pub struct CachedBuffers {
    /// the buffers, in the order they were made
    pub buffers: Vec<Buffer>,
}

/// `i` is the first free buffer of `x` by `y` pixels of format `format`.
pub open spec fn is_first_match(bs: Seq<Buffer>, x: i32, y: i32, format: u32, i: int) -> bool {
    &&& 0 <= i < bs.len()
    &&& bs[i].free && bs[i].w == x && bs[i].h == y && bs[i].format == format
    &&& forall|j: int|
        0 <= j < i ==> !(bs[j].free && bs[j].w == x && bs[j].h == y && bs[j].format == format)
}

/// The buffer picked for contents of `x` by `y` pixels of format `format`:
/// the first free buffer of that size and format, or else the last free
/// buffer, or else none (a new one is made).
pub open spec fn pick_spec(bs: Seq<Buffer>, x: i32, y: i32, format: u32) -> Option<int> {
    if exists|i: int| is_first_match(bs, x, y, format, i) {
        Some(choose|i: int| is_first_match(bs, x, y, format, i))
    } else if exists|i: int| 0 <= i < bs.len() && bs[i].free {
        Some(choose|i: int| 0 <= i < bs.len() && bs[i].free && forall|j: int| i < j < bs.len() ==> !bs[j].free)
    } else {
        None
    }
}

proof fn lemma_first_match(bs: Seq<Buffer>, x: i32, y: i32, format: u32, i: int)
    requires
        is_first_match(bs, x, y, format, i),
    ensures
        pick_spec(bs, x, y, format) == Some(i),
{
    let k = choose|k: int| is_first_match(bs, x, y, format, k);
    assert(is_first_match(bs, x, y, format, k));
    if k < i {
        assert(!(bs[k].free && bs[k].w == x && bs[k].h == y && bs[k].format == format));
    } else if i < k {
        assert(!(bs[i].free && bs[i].w == x && bs[i].h == y && bs[i].format == format));
    }
}

impl CachedBuffers {
    /// An empty cache.
    pub fn new() -> (c: Self)
        ensures
            c.buffers@.len() == 0,
    {
        CachedBuffers { buffers: Vec::new() }
    }

    /// The position of the buffer to write contents of `x` by `y` pixels of
    /// format `format` into (see `pick_spec`); when no buffer is free a new
    /// one of that size is added and picked.
    pub fn index_of_pair_buffer(&mut self, x: i32, y: i32, format: u32) -> (pos: usize)
        requires
            i32::MIN <= x * y * 4 <= i32::MAX,
        ensures
            match pick_spec(old(self).buffers@, x, y, format) {
                Some(i) => pos == i && final(self).buffers@ == old(self).buffers@,
                None => {
                    &&& pos == old(self).buffers@.len()
                    &&& final(self).buffers@ == old(self).buffers@.push(
                        Buffer { free: true, pool_size: (x * y * 4) as i32, w: x, h: y, format },
                    )
                },
            },
            pos < final(self).buffers@.len(),
    {
        let ghost bs = self.buffers@;
        let mut best: Option<usize> = None;
        let mut i: usize = 0;
        while i < self.buffers.len()
            invariant
                i <= bs.len(),
                bs == self.buffers@,
                forall|j: int|
                    0 <= j < i ==> !(bs[j].free && bs[j].w == x && bs[j].h == y && bs[j].format
                        == format),
                match best {
                    Some(b) => b < i && bs[b as int].free && forall|j: int|
                        b < j < i ==> !bs[j].free,
                    None => forall|j: int| 0 <= j < i ==> !bs[j].free,
                },
            decreases bs.len() - i,
        {
            let b = self.buffers[i];
            if b.free {
                if b.w == x && b.h == y && b.format == format {
                    proof {
                        lemma_first_match(bs, x, y, format, i as int);
                    }
                    return i;
                }
                best = Some(i);
            }
            i = i + 1;
        }
        proof {
            if exists|k: int| is_first_match(bs, x, y, format, k) {
                let k = choose|k: int| is_first_match(bs, x, y, format, k);
                assert(bs[k].free && bs[k].w == x && bs[k].h == y && bs[k].format == format);
            }
        }
        match best {
            Some(b) => {
                proof {
                    let c = choose|c: int|
                        0 <= c < bs.len() && bs[c].free && forall|j: int| c < j < bs.len() ==> !bs[j].free;
                    assert(0 <= b < bs.len() && bs[b as int].free && forall|j: int|
                        b < j < bs.len() ==> !bs[j].free);
                    if c < b {
                        assert(!bs[b as int].free);
                    } else if (b as int) < c {
                        assert(!bs[c].free);
                    }
                }
                b
            },
            None => {
                let nb = Buffer::new(x, y, format);
                self.buffers.push(nb);
                self.buffers.len() - 1
            },
        }
    }
}

/// A new buffer assigned to a committed embedded surface.
#[derive(Clone, Copy, Debug, PartialEq, Eq, Structural)]
pub enum BufferAssignment {
    /// a new shared-memory buffer of `width` by `height` pixels, whose format
    /// is `format` when that is a `wl_shm` format
    NewShm { width: i32, height: i32, format: Option<u32> },
    /// a new buffer of another kind
    NewOther,
    /// the buffer was removed
    Removed,
}

impl CachedBuffers {
    /// Gets a buffer of the cache ready for a committed buffer: a removed
    /// buffer changes nothing; a buffer that is not shared memory or not of a
    /// `wl_shm` format is refused; otherwise a buffer is picked (see
    /// `index_of_pair_buffer`) and prepared (see `Buffer::prepare_write`).
    /// Returns the position of the buffer to write and attach, and how it
    /// was recreated.
    pub fn write_and_attach_buffer(&mut self, assignment: BufferAssignment) -> (res: Result<
        Option<(usize, Option<BufferLayout>)>,
        BufferError,
    >)
        requires
            assignment matches BufferAssignment::NewShm { width, height, format } ==> i32::MIN
                <= width * height * 4 <= i32::MAX && i32::MIN <= width * 4 <= i32::MAX,
        ensures
            match assignment {
                BufferAssignment::Removed => res == Ok::<
                    Option<(usize, Option<BufferLayout>)>,
                    BufferError,
                >(None) && final(self).buffers@ == old(self).buffers@,
                BufferAssignment::NewOther => res == Err::<
                    Option<(usize, Option<BufferLayout>)>,
                    BufferError,
                >(BufferError::NotShm) && final(self).buffers@ == old(self).buffers@,
                BufferAssignment::NewShm { width, height, format } => match format {
                    None => res == Err::<Option<(usize, Option<BufferLayout>)>, BufferError>(
                        BufferError::UnsupportedFormat,
                    ) && final(self).buffers@ == old(self).buffers@,
                    Some(f) => {
                        let picked = pick_spec(old(self).buffers@, width, height, f);
                        let with_new = match picked {
                            Some(_) => old(self).buffers@,
                            None => old(self).buffers@.push(
                                Buffer { free: true, pool_size: (width * height * 4) as i32, w: width, h: height, format: f },
                            ),
                        };
                        let pos = match picked {
                            Some(i) => i,
                            None => old(self).buffers@.len() as int,
                        };
                        let b = with_new[pos];
                        let resized = b.w != width && b.h != height;
                        let pool = if resized && b.pool_size < width * height * 4 {
                            (width * height * 4) as i32
                        } else {
                            b.pool_size
                        };
                        let nb = if resized {
                            Buffer { w: width, h: height, pool_size: pool, ..b }
                        } else {
                            b
                        };
                        &&& final(self).buffers@ == with_new.update(pos, nb)
                        &&& res == Ok::<Option<(usize, Option<BufferLayout>)>, BufferError>(
                            Some(
                                (
                                    pos as usize,
                                    if resized {
                                        Some(
                                            BufferLayout {
                                                width,
                                                height,
                                                stride: (width * 4) as i32,
                                                format: f,
                                            },
                                        )
                                    } else {
                                        None
                                    },
                                ),
                            ),
                        )
                    },
                },
            },
    {
        match assignment {
            BufferAssignment::Removed => Ok(None),
            BufferAssignment::NewOther => Err(BufferError::NotShm),
            BufferAssignment::NewShm { width, height, format } => match format {
                None => Err(BufferError::UnsupportedFormat),
                Some(f) => {
                    let pos = self.index_of_pair_buffer(width, height, f);
                    let mut b = self.buffers[pos];
                    let r = b.prepare_write(width, height, Some(f));
                    self.buffers.set(pos, b);
                    match r {
                        Ok(layout) => Ok(Some((pos, layout))),
                        Err(e) => Err(e),
                    }
                },
            },
        }
    }
}

/// Why the bytes of a buffer could not be copied.
#[derive(Clone, Copy, Debug, PartialEq, Eq, Structural)]
pub enum CopyError {
    /// the offset, height or stride is negative
    Negative,
}

/// The byte range `offset .. offset + height * stride` of a shared-memory
/// buffer of `length` bytes that a cursor image copies, refused when one of
/// the three is negative.
pub fn shm_copy_range(length: usize, offset: i32, height: i32, stride: i32) -> (res: Result<
    (usize, usize),
    CopyError,
>)
    requires
        (offset >= 0 && height >= 0 && stride >= 0) ==> offset + height * stride <= length,
    ensures
        (offset < 0 || height < 0 || stride < 0) ==> res == Err::<(usize, usize), CopyError>(
            CopyError::Negative,
        ),
        (offset >= 0 && height >= 0 && stride >= 0) ==> res == Ok::<(usize, usize), CopyError>(
            (offset as usize, (offset + height * stride) as usize),
        ),
{
    if offset < 0 || height < 0 || stride < 0 {
        return Err(CopyError::Negative);
    }
    let o = offset as usize;
    let h = height as usize;
    let s = stride as usize;
    assert(h * s <= length) by (nonlinear_arith)
        requires
            o + h * s <= length,
            o >= 0,
    ;
    let end = o + h * s;
    Ok((o, end))
}

} // verus!
