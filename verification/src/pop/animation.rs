//! Animations: the three files of linked records, and the sequences of
//! frames of sprites that they describe.

use vstd::prelude::*;
use crate::pop::types::{read_u16_le, u16_le, BinDeserializer, ByteReader, ImageInfo};

verus! {

/// An element of a frame as its file holds it: a sprite, where it goes, and
/// the element that comes next in the frame.
#[derive(Debug, Copy, Clone)]
pub struct VeleRaw {
    pub sprite_index: u16,
    pub coord_x: i16,
    pub coord_y: i16,
    pub flags: u16,
    pub next_index: u16,
}

impl BinDeserializer for VeleRaw {
    open spec fn spec_size() -> usize {
        10
    }

    open spec fn decodes(bytes: Seq<u8>, record: &Self) -> bool {
        *record == (VeleRaw {
            sprite_index: u16_le(bytes, 0),
            coord_x: u16_le(bytes, 2) as i16,
            coord_y: u16_le(bytes, 4) as i16,
            flags: u16_le(bytes, 6),
            next_index: u16_le(bytes, 8),
        })
    }

    proof fn lemma_size_positive() {
    }

    fn size() -> usize {
        10
    }

    fn decode(bytes: &[u8]) -> Self {
        VeleRaw {
            sprite_index: read_u16_le(bytes, 0),
            coord_x: read_u16_le(bytes, 2) as i16,
            coord_y: read_u16_le(bytes, 4) as i16,
            flags: read_u16_le(bytes, 6),
            next_index: read_u16_le(bytes, 8),
        }
    }
}

/// A frame as its file holds it: its first element, its size, and the frame
/// that comes next in the sequence.
#[derive(Debug, Copy, Clone)]
pub struct VfraRaw {
    pub index: u16,
    pub width: u8,
    pub height: u8,
    pub f3: u8,
    pub f4: u8,
    pub next_vfra: u16,
}

impl BinDeserializer for VfraRaw {
    open spec fn spec_size() -> usize {
        8
    }

    open spec fn decodes(bytes: Seq<u8>, record: &Self) -> bool {
        *record == (VfraRaw {
            index: u16_le(bytes, 0),
            width: bytes[2],
            height: bytes[3],
            f3: bytes[4],
            f4: bytes[5],
            next_vfra: u16_le(bytes, 6),
        })
    }

    proof fn lemma_size_positive() {
    }

    fn size() -> usize {
        8
    }

    fn decode(bytes: &[u8]) -> Self {
        VfraRaw {
            index: read_u16_le(bytes, 0),
            width: bytes[2],
            height: bytes[3],
            f3: bytes[4],
            f4: bytes[5],
            next_vfra: read_u16_le(bytes, 6),
        }
    }
}

/// A sequence as its file holds it: its first frame.
#[derive(Debug, Copy, Clone)]
pub struct VstartRaw {
    pub index: u16,
    pub f1: u8,
    pub f2: u8,
}

impl BinDeserializer for VstartRaw {
    open spec fn spec_size() -> usize {
        4
    }

    open spec fn decodes(bytes: Seq<u8>, record: &Self) -> bool {
        *record == (VstartRaw { index: u16_le(bytes, 0), f1: bytes[2], f2: bytes[3] })
    }

    proof fn lemma_size_positive() {
    }

    fn size() -> usize {
        4
    }

    fn decode(bytes: &[u8]) -> Self {
        VstartRaw { index: read_u16_le(bytes, 0), f1: bytes[2], f2: bytes[3] }
    }
}

/// The records of the three animation files.
#[derive(Debug)]
pub struct AnimationsData {
    pub vele: Vec<VeleRaw>,
    pub vfra: Vec<VfraRaw>,
    pub vstart: Vec<VstartRaw>,
}

impl AnimationsData {
    /// Reads the records that the three files hold in full.
    pub fn from_reader(
        reader_vele: &mut ByteReader,
        reader_vfra: &mut ByteReader,
        reader_vstart: &mut ByteReader,
    ) -> (data: Self)
        requires
            old(reader_vele).wf(),
            old(reader_vfra).wf(),
            old(reader_vstart).wf(),
        ensures
            final(reader_vele).wf(),
            final(reader_vfra).wf(),
            final(reader_vstart).wf(),
            final(reader_vele).data == old(reader_vele).data,
            final(reader_vfra).data == old(reader_vfra).data,
            final(reader_vstart).data == old(reader_vstart).data,
            final(reader_vele).pos == old(reader_vele).pos + data.vele.len() * 10,
            final(reader_vfra).pos == old(reader_vfra).pos + data.vfra.len() * 8,
            final(reader_vstart).pos == old(reader_vstart).pos + data.vstart.len() * 4,
            data.vele.len() == (old(reader_vele).rest().len() as int) / 10,
            data.vfra.len() == (old(reader_vfra).rest().len() as int) / 8,
            data.vstart.len() == (old(reader_vstart).rest().len() as int) / 4,
            forall|k: int|
                0 <= k < data.vele.len() ==> VeleRaw::decodes(
                    crate::pop::types::record_bytes(old(reader_vele).rest(), 10, k),
                    &#[trigger] data.vele[k],
                ),
            forall|k: int|
                0 <= k < data.vfra.len() ==> VfraRaw::decodes(
                    crate::pop::types::record_bytes(old(reader_vfra).rest(), 8, k),
                    &#[trigger] data.vfra[k],
                ),
            forall|k: int|
                0 <= k < data.vstart.len() ==> VstartRaw::decodes(
                    crate::pop::types::record_bytes(old(reader_vstart).rest(), 4, k),
                    &#[trigger] data.vstart[k],
                ),
    {
        AnimationsData {
            vele: VeleRaw::from_reader_vec(reader_vele),
            vfra: VfraRaw::from_reader_vec(reader_vfra),
            vstart: VstartRaw::from_reader_vec(reader_vstart),
        }
    }
}

/// How the sprite of an element is turned over.
pub enum ElementRotate {
    NoRotate,
    RotateHorizontal,
    RotateVertical,
}

/// One sprite of a frame.
#[derive(Debug, Copy, Clone)]
pub struct AnimationElement {
    pub sprite_index: usize,
    pub coord_x: i16,
    pub coord_y: i16,
    pub tribe: u8,
    pub flags: u16,
    pub uvar5: u16,
    pub original_flags: u16,
}

/// One frame of a sequence.
#[derive(Debug, Clone)]
pub struct AnimationFrame {
    pub index: usize,
    pub width: usize,
    pub height: usize,
    pub sprites: Vec<AnimationElement>,
}

/// A frame as a value.
pub struct AnimationFrameView {
    pub index: usize,
    pub width: usize,
    pub height: usize,
    pub sprites: Seq<AnimationElement>,
}

impl View for AnimationFrame {
    type V = AnimationFrameView;

    open spec fn view(&self) -> AnimationFrameView {
        AnimationFrameView {
            index: self.index,
            width: self.width,
            height: self.height,
            sprites: self.sprites@,
        }
    }
}

/// A sequence of frames.
pub struct AnimationSequence {
    pub index: usize,
    pub frames: Vec<AnimationFrame>,
}

/// The most elements that are read of a frame, and the most frames that are
/// read of a sequence.
pub const CHAIN_LIMIT: usize = 256;

/// The frames of a list of frames as values.
pub open spec fn frame_views(frames: Seq<AnimationFrame>) -> Seq<AnimationFrameView> {
    Seq::new(frames.len(), |k: int| frames[k]@)
}

/// The element that a record describes: the sprite, the tribe from the
/// upper 7 bits of the flags, the kind from bits 4 to 8, and the lower 5
/// bits as the element's own flags.
pub open spec fn element_of(raw: VeleRaw) -> AnimationElement {
    AnimationElement {
        sprite_index: (raw.sprite_index / 6) as usize,
        coord_x: raw.coord_x,
        coord_y: raw.coord_y,
        tribe: (raw.flags >> 9) as u8,
        flags: raw.flags & 0x1f,
        uvar5: (raw.flags & 0x1f0) >> 4,
        original_flags: raw.flags,
    }
}

/// The chain of at most `budget` elements that starts at record `index`
/// stays inside the file. Record 0 ends a chain.
pub open spec fn elements_linked(vele: Seq<VeleRaw>, index: int, budget: nat) -> bool
    decreases budget,
{
    if index == 0 || budget == 0 {
        true
    } else {
        0 <= index < vele.len() && elements_linked(
            vele,
            vele[index].next_index as int,
            (budget - 1) as nat,
        )
    }
}

/// The chain of at most `budget` elements that starts at record `index`.
pub open spec fn elements_from(vele: Seq<VeleRaw>, index: int, budget: nat) -> Seq<
    AnimationElement,
>
    decreases budget,
{
    if index == 0 || budget == 0 {
        Seq::empty()
    } else {
        seq![element_of(vele[index])] + elements_from(
            vele,
            vele[index].next_index as int,
            (budget - 1) as nat,
        )
    }
}

/// The frame that record `at` describes.
pub open spec fn frame_of(vfra: Seq<VfraRaw>, vele: Seq<VeleRaw>, at: int) -> AnimationFrameView {
    AnimationFrameView {
        index: at as usize,
        width: vfra[at].width as usize,
        height: vfra[at].height as usize,
        sprites: elements_from(vele, vfra[at].index as int, CHAIN_LIMIT as nat),
    }
}

/// The chain of at most `budget` frames that goes on at record `at` of a
/// sequence that started at record `start` stays inside the files. Record
/// 0 ends a chain, and so does the way back to the start.
pub open spec fn frames_linked(
    vfra: Seq<VfraRaw>,
    vele: Seq<VeleRaw>,
    start: int,
    at: int,
    budget: nat,
) -> bool
    decreases budget,
{
    if at == 0 || budget == 0 {
        true
    } else {
        &&& 0 <= at < vfra.len()
        &&& elements_linked(vele, vfra[at].index as int, CHAIN_LIMIT as nat)
        &&& vfra[at].next_vfra != start ==> frames_linked(
            vfra,
            vele,
            start,
            vfra[at].next_vfra as int,
            (budget - 1) as nat,
        )
    }
}

/// The chain of at most `budget` frames that goes on at record `at` of a
/// sequence that started at record `start`.
pub open spec fn frames_from(
    vfra: Seq<VfraRaw>,
    vele: Seq<VeleRaw>,
    start: int,
    at: int,
    budget: nat,
) -> Seq<AnimationFrameView>
    decreases budget,
{
    if at == 0 || budget == 0 {
        Seq::empty()
    } else {
        seq![frame_of(vfra, vele, at)] + (if vfra[at].next_vfra == start {
            Seq::empty()
        } else {
            frames_from(vfra, vele, start, vfra[at].next_vfra as int, (budget - 1) as nat)
        })
    }
}

impl AnimationElement {
    /// The element is not drawn.
    pub open spec fn hidden(&self) -> bool {
        self.flags == 0x4
    }

    /// The element belongs to one tribe.
    pub open spec fn tribe_specific(&self) -> bool {
        self.uvar5 == 0x1 && self.flags == 0x10
    }

    /// The element belongs to one kind of unit.
    pub open spec fn type_specific(&self) -> bool {
        self.uvar5 > 1
    }

    /// The element belongs to every tribe and kind.
    pub open spec fn common(&self) -> bool {
        !(self.tribe_specific() || self.type_specific())
    }

    pub fn get_tribe(&self) -> (t: u8)
        ensures
            t == self.tribe,
    {
        self.tribe
    }

    pub fn is_hidden(&self) -> (b: bool)
        ensures
            b == self.hidden(),
    {
        self.flags == 0x4
    }

    pub fn is_common(&self) -> (b: bool)
        ensures
            b == self.common(),
    {
        !(self.is_tribe_specific() || self.is_type_specific())
    }

    pub fn is_tribe_specific(&self) -> (b: bool)
        ensures
            b == self.tribe_specific(),
    {
        self.uvar5 == 0x1 && self.flags == 0x10
    }

    pub fn is_type_specific(&self) -> (b: bool)
        ensures
            b == self.type_specific(),
    {
        self.uvar5 > 1
    }

    /// Bit 0 of the flags turns the sprite over from left to right; else
    /// bit 1 turns it upside down.
    pub fn get_rotate(&self) -> (r: ElementRotate)
        ensures
            (self.flags & 0x1) != 0 ==> r is RotateHorizontal,
            (self.flags & 0x1) == 0 && (self.flags & 0x2) != 0 ==> r is RotateVertical,
            (self.flags & 0x1) == 0 && (self.flags & 0x2) == 0 ==> r is NoRotate,
    {
        if (self.flags & 0x1) != 0 {
            ElementRotate::RotateHorizontal
        } else if (self.flags & 0x2) != 0 {
            ElementRotate::RotateVertical
        } else {
            ElementRotate::NoRotate
        }
    }

    /// Follows the chain of elements that starts at record `index`, up to
    /// 256 elements.
    pub fn from_data(index: u16, vele: &[VeleRaw]) -> (sprites: Vec<Self>)
        requires
            elements_linked(vele@, index as int, CHAIN_LIMIT as nat),
        ensures
            sprites@ == elements_from(vele@, index as int, CHAIN_LIMIT as nat),
    {
        let mut sprites: Vec<Self> = Vec::new();
        let mut vele_index = index as usize;
        proof {
            assert(sprites@ + elements_from(vele@, index as int, CHAIN_LIMIT as nat)
                =~= elements_from(vele@, index as int, CHAIN_LIMIT as nat));
        }
        loop
            invariant_except_break
                sprites.len() < CHAIN_LIMIT,
                elements_linked(vele@, vele_index as int, (CHAIN_LIMIT - sprites.len()) as nat),
                sprites@ + elements_from(
                    vele@,
                    vele_index as int,
                    (CHAIN_LIMIT - sprites.len()) as nat,
                ) == elements_from(vele@, index as int, CHAIN_LIMIT as nat),
            ensures
                sprites@ == elements_from(vele@, index as int, CHAIN_LIMIT as nat),
            decreases CHAIN_LIMIT - sprites.len(),
        {
            if vele_index == 0 {
                proof {
                    let rest = elements_from(vele@, 0, (CHAIN_LIMIT - sprites.len()) as nat);
                    assert(sprites@ + rest =~= sprites@);
                }
                break ;
            }
            let vele_sprite = &vele[vele_index];
            let ghost before = sprites@;
            let ghost rest = elements_from(
                vele@,
                vele_sprite.next_index as int,
                (CHAIN_LIMIT - sprites.len() - 1) as nat,
            );
            let flags = vele_sprite.flags;
            let tribe16: u16 = flags >> 9;
            assert(tribe16 < 128) by (bit_vector)
                requires
                    tribe16 == flags >> 9,
            ;
            sprites.push(
                AnimationElement {
                    sprite_index: vele_sprite.sprite_index as usize / 6,
                    coord_x: vele_sprite.coord_x,
                    coord_y: vele_sprite.coord_y,
                    tribe: tribe16 as u8,
                    flags: flags & 0x1f,
                    uvar5: (flags & 0x1f0) >> 4,
                    original_flags: flags,
                },
            );
            proof {
                assert(sprites@ + rest =~= before + (seq![element_of(*vele_sprite)] + rest));
            }
            vele_index = vele_sprite.next_index as usize;
            if sprites.len() > 255 {
                proof {
                    assert(rest =~= Seq::<AnimationElement>::empty());
                    assert(sprites@ + rest =~= sprites@);
                }
                break ;
            }
        }
        sprites
    }
}

/// The elements that are drawn and belong to every tribe and kind.
pub open spec fn drawn_common() -> spec_fn(AnimationElement) -> bool {
    |e: AnimationElement| !e.hidden() && e.common()
}

/// The elements that are drawn for a tribe: those of every tribe and those
/// of one.
pub open spec fn drawn_for_tribe() -> spec_fn(AnimationElement) -> bool {
    |e: AnimationElement| !e.hidden() && (e.common() || e.tribe_specific())
}

/// The elements that are drawn for a kind of unit: those of every kind and
/// those of one.
pub open spec fn drawn_for_type() -> spec_fn(AnimationElement) -> bool {
    |e: AnimationElement| !e.hidden() && (e.common() || e.type_specific())
}

/// The ways to draw a frame: the common elements alone if there are no
/// others to choose from; else the common elements with one element for
/// the tribe and one for the kind, for every choice of these, the tribe's
/// changing slowest.
pub open spec fn permutations(
    common: Seq<AnimationElement>,
    tribe: Seq<AnimationElement>,
    kind: Seq<AnimationElement>,
) -> Seq<Seq<AnimationElement>> {
    if tribe.len() == 0 && kind.len() == 0 {
        seq![common]
    } else if tribe.len() == 0 {
        Seq::new(kind.len(), |b: int| common.push(kind[b]))
    } else if kind.len() == 0 {
        Seq::new(tribe.len(), |a: int| common.push(tribe[a]))
    } else {
        Seq::new(
            tribe.len() * kind.len(),
            |k: int| common.push(tribe[k / (kind.len() as int)]).push(kind[k % (kind.len() as int)]),
        )
    }
}

/// The lists of a list of lists as values.
pub open spec fn list_views(lists: Seq<Vec<AnimationElement>>) -> Seq<Seq<AnimationElement>> {
    Seq::new(lists.len(), |k: int| lists[k]@)
}

/// A copy of a list of elements with one more at its end.
fn with_element(list: &Vec<AnimationElement>, last: AnimationElement) -> (r: Vec<AnimationElement>)
    ensures
        r@ == list@.push(last),
{
    let mut r: Vec<AnimationElement> = Vec::new();
    let mut k: usize = 0;
    while k < list.len()
        invariant
            k <= list.len(),
            r@ == list@.take(k as int),
        decreases list.len() - k,
    {
        r.push(list[k]);
        assert(r@ =~= list@.take(k + 1));
        k += 1;
    }
    assert(list@.take(list.len() as int) =~= list@);
    r.push(last);
    r
}

/// One more element is filtered.
proof fn lemma_filter_step(
    sprites: Seq<AnimationElement>,
    k: int,
    pred: spec_fn(AnimationElement) -> bool,
)
    requires
        0 <= k < sprites.len(),
    ensures
        sprites.take(k + 1).filter(pred) == (if pred(sprites[k]) {
            sprites.take(k).filter(pred).push(sprites[k])
        } else {
            sprites.take(k).filter(pred)
        }),
{
    reveal(Seq::filter);
    assert(sprites.take(k + 1).drop_last() =~= sprites.take(k));
}

impl AnimationFrame {
    /// Lists the ways to draw the frame. Without `with_tribe` no elements
    /// are chosen for the tribe, without `with_type` none for the kind.
    pub fn get_permutations(&self, with_tribe: bool, with_type: bool) -> (res: Vec<
        Vec<AnimationElement>,
    >)
        requires
            self.sprites.len() * self.sprites.len() <= usize::MAX,
        ensures
            list_views(res@) == permutations(
                self.sprites@.filter(drawn_common()),
                if with_tribe {
                    self.sprites@.filter(drawn_for_tribe())
                } else {
                    Seq::empty()
                },
                if with_type {
                    self.sprites@.filter(drawn_for_type())
                } else {
                    Seq::empty()
                },
            ),
    {
        let mut common_elems: Vec<AnimationElement> = Vec::new();
        let mut tribe_elems: Vec<AnimationElement> = Vec::new();
        let mut type_elems: Vec<AnimationElement> = Vec::new();
        let mut n: usize = 0;
        proof {
            reveal(Seq::filter);
            assert(self.sprites@.take(0).filter(drawn_common()) =~= Seq::empty());
            assert(self.sprites@.take(0).filter(drawn_for_tribe()) =~= Seq::empty());
            assert(self.sprites@.take(0).filter(drawn_for_type()) =~= Seq::empty());
        }
        while n < self.sprites.len()
            invariant
                n <= self.sprites.len(),
                common_elems@ == self.sprites@.take(n as int).filter(drawn_common()),
                tribe_elems@ == (if with_tribe {
                    self.sprites@.take(n as int).filter(drawn_for_tribe())
                } else {
                    Seq::empty()
                }),
                type_elems@ == (if with_type {
                    self.sprites@.take(n as int).filter(drawn_for_type())
                } else {
                    Seq::empty()
                }),
            decreases self.sprites.len() - n,
        {
            let elem = &self.sprites[n];
            proof {
                lemma_filter_step(self.sprites@, n as int, drawn_common());
                lemma_filter_step(self.sprites@, n as int, drawn_for_tribe());
                lemma_filter_step(self.sprites@, n as int, drawn_for_type());
            }
            n += 1;
            if elem.is_hidden() {
                continue ;
            }
            if elem.is_common() {
                common_elems.push(*elem);
                if with_type {
                    type_elems.push(*elem);
                }
                if with_tribe {
                    tribe_elems.push(*elem);
                }
            } else if with_tribe && elem.is_tribe_specific() {
                tribe_elems.push(*elem);
            } else if with_type && elem.is_type_specific() {
                type_elems.push(*elem);
            }
        }
        proof {
            assert(self.sprites@.take(self.sprites.len() as int) =~= self.sprites@);
            self.sprites@.lemma_filter_len(drawn_for_tribe());
            self.sprites@.lemma_filter_len(drawn_for_type());
        }
        let ghost expected = permutations(common_elems@, tribe_elems@, type_elems@);
        let mut res: Vec<Vec<AnimationElement>> = Vec::new();
        if tribe_elems.is_empty() && type_elems.is_empty() {
            res.push(common_elems);
            assert(list_views(res@) =~= expected);
        } else if !tribe_elems.is_empty() {
            let kinds = type_elems.len();
            let mut a: usize = 0;
            while a < tribe_elems.len()
                invariant
                    a <= tribe_elems.len(),
                    kinds == type_elems.len(),
                    tribe_elems.len() > 0,
                    tribe_elems.len() <= self.sprites.len(),
                    kinds <= self.sprites.len(),
                    self.sprites.len() * self.sprites.len() <= usize::MAX,
                    expected == permutations(common_elems@, tribe_elems@, type_elems@),
                    res.len() == (if kinds == 0 {
                        a as int
                    } else {
                        a * kinds
                    }),
                    forall|k: int| 0 <= k < res.len() ==> #[trigger] res[k]@ == expected[k],
                decreases tribe_elems.len() - a,
            {
                let res_tribe = with_element(&common_elems, tribe_elems[a]);
                if type_elems.is_empty() {
                    res.push(res_tribe);
                } else {
                    let mut b: usize = 0;
                    proof {
                        lemma_table_place(
                            a as int,
                            0,
                            tribe_elems.len() as int,
                            kinds as int,
                        );
                    }
                    while b < kinds
                        invariant
                            b <= kinds,
                            a < tribe_elems.len(),
                            kinds == type_elems.len(),
                            kinds > 0,
                            tribe_elems.len() <= self.sprites.len(),
                            kinds <= self.sprites.len(),
                            expected == permutations(common_elems@, tribe_elems@, type_elems@),
                            res_tribe@ == common_elems@.push(tribe_elems[a as int]),
                            res.len() == a * kinds + b,
                            forall|k: int| 0 <= k < res.len() ==> #[trigger] res[k]@ == expected[k],
                        decreases kinds - b,
                    {
                        proof {
                            lemma_table_place(
                                a as int,
                                b as int,
                                tribe_elems.len() as int,
                                kinds as int,
                            );
                        }
                        let res_type = with_element(&res_tribe, type_elems[b]);
                        res.push(res_type);
                        b += 1;
                    }
                    proof {
                        assert(a * kinds + kinds == (a + 1) * kinds) by (nonlinear_arith);
                    }
                }
                a += 1;
            }
            proof {
                if kinds > 0 {
                    assert(tribe_elems.len() * kinds == expected.len());
                }
            }
            assert(list_views(res@) =~= expected);
        } else {
            let mut b: usize = 0;
            while b < type_elems.len()
                invariant
                    b <= type_elems.len(),
                    tribe_elems.len() == 0,
                    type_elems.len() > 0,
                    expected == permutations(common_elems@, tribe_elems@, type_elems@),
                    res.len() == b,
                    forall|k: int| 0 <= k < res.len() ==> #[trigger] res[k]@ == expected[k],
                decreases type_elems.len() - b,
            {
                let res_type = with_element(&common_elems, type_elems[b]);
                res.push(res_type);
                b += 1;
            }
            assert(list_views(res@) =~= expected);
        }
        res
    }

    /// Follows the chain of frames that starts at record `index`, up to 256
    /// frames or until the chain comes back to its start.
    pub fn from_data(index: u16, vfra: &[VfraRaw], vele: &[VeleRaw]) -> (frames: Vec<Self>)
        requires
            frames_linked(vfra@, vele@, index as int, index as int, CHAIN_LIMIT as nat),
        ensures
            frame_views(frames@) == frames_from(
                vfra@,
                vele@,
                index as int,
                index as int,
                CHAIN_LIMIT as nat,
            ),
    {
        let mut frames: Vec<Self> = Vec::new();
        let mut vfra_index = index as usize;
        let ghost all = frames_from(vfra@, vele@, index as int, index as int, CHAIN_LIMIT as nat);
        proof {
            assert(frame_views(frames@) =~= Seq::empty());
            assert(Seq::<AnimationFrameView>::empty() + all =~= all);
        }
        loop
            invariant_except_break
                frames.len() < CHAIN_LIMIT,
                all == frames_from(vfra@, vele@, index as int, index as int, CHAIN_LIMIT as nat),
                frames_linked(
                    vfra@,
                    vele@,
                    index as int,
                    vfra_index as int,
                    (CHAIN_LIMIT - frames.len()) as nat,
                ),
                frame_views(frames@) + frames_from(
                    vfra@,
                    vele@,
                    index as int,
                    vfra_index as int,
                    (CHAIN_LIMIT - frames.len()) as nat,
                ) == all,
            ensures
                frame_views(frames@) == all,
            decreases CHAIN_LIMIT - frames.len(),
        {
            if vfra_index == 0 {
                proof {
                    let rest = frames_from(
                        vfra@,
                        vele@,
                        index as int,
                        0,
                        (CHAIN_LIMIT - frames.len()) as nat,
                    );
                    assert(frame_views(frames@) + rest =~= frame_views(frames@));
                }
                break ;
            }
            let vfra_frame = &vfra[vfra_index];
            let ghost before = frame_views(frames@);
            let ghost budget = (CHAIN_LIMIT - frames.len() - 1) as nat;
            let ghost rest = if vfra_frame.next_vfra == index {
                Seq::<AnimationFrameView>::empty()
            } else {
                frames_from(vfra@, vele@, index as int, vfra_frame.next_vfra as int, budget)
            };
            frames.push(
                AnimationFrame {
                    index: vfra_index,
                    width: vfra_frame.width as usize,
                    height: vfra_frame.height as usize,
                    sprites: AnimationElement::from_data(vfra_frame.index, vele),
                },
            );
            proof {
                assert(frame_views(frames@) =~= before.push(
                    frame_of(vfra@, vele@, vfra_index as int),
                ));
                assert(frame_views(frames@) + rest =~= before + (seq![
                    frame_of(vfra@, vele@, vfra_index as int),
                ] + rest));
            }
            vfra_index = vfra_frame.next_vfra as usize;
            if frames.len() > 255 {
                proof {
                    if vfra_frame.next_vfra != index {
                        assert(rest =~= Seq::<AnimationFrameView>::empty());
                    }
                    assert(frame_views(frames@) + rest =~= frame_views(frames@));
                }
                break ;
            }
            if vfra_index == (index as usize) {
                proof {
                    assert(frame_views(frames@) + rest =~= frame_views(frames@));
                }
                break ;
            }
        }
        frames
    }

    /// A copy of the frame.
    pub fn duplicate(&self) -> (copy: Self)
        ensures
            copy@ == self@,
    {
        let mut sprites: Vec<AnimationElement> = Vec::new();
        let mut k: usize = 0;
        while k < self.sprites.len()
            invariant
                k <= self.sprites.len(),
                sprites@ == self.sprites@.take(k as int),
            decreases self.sprites.len() - k,
        {
            sprites.push(self.sprites[k]);
            assert(sprites@ =~= self.sprites@.take(k + 1));
            k += 1;
        }
        assert(self.sprites@.take(self.sprites.len() as int) =~= self.sprites@);
        AnimationFrame { index: self.index, width: self.width, height: self.height, sprites }
    }
}

/// Row `a`, column `b` of a table of `rows` by `columns` lies at place
/// `a * columns + b` of the table read row by row.
proof fn lemma_table_place(a: int, b: int, rows: int, columns: int)
    requires
        0 <= a < rows,
        0 <= b < columns,
    ensures
        0 <= a * columns + b < rows * columns,
        (a * columns + b) / columns == a,
        (a * columns + b) % columns == b,
{
    assert(0 <= a * columns + b < rows * columns) by (nonlinear_arith)
        requires
            0 <= a < rows,
            0 <= b < columns,
    ;
    vstd::arithmetic::div_mod::lemma_fundamental_div_mod_converse(
        a * columns + b,
        columns,
        a,
        b,
    );
}

impl ImageInfo for AnimationFrame {
    open spec fn spec_width(&self) -> usize {
        self.width
    }

    open spec fn spec_height(&self) -> usize {
        self.height
    }

    fn width(&self) -> usize {
        self.width
    }

    fn height(&self) -> usize {
        self.height
    }
}

/// The frames of all the sequences up to sequence `k`, one sequence after
/// the other.
pub open spec fn frames_of_all(seqs: Seq<AnimationSequence>, k: nat) -> Seq<AnimationFrameView>
    decreases k,
{
    if k == 0 {
        Seq::empty()
    } else {
        frames_of_all(seqs, (k - 1) as nat) + frame_views(seqs[k - 1].frames@)
    }
}

impl AnimationSequence {
    /// The sequences of the animation files: for each start record the
    /// chain of frames that it points at. Sequence `k` has index `k`.
    pub fn from_data(anim_data: &AnimationsData) -> (res: Vec<Self>)
        requires
            forall|k: int|
                0 <= k < anim_data.vstart.len() ==> frames_linked(
                    anim_data.vfra@,
                    anim_data.vele@,
                    (#[trigger] anim_data.vstart[k]).index as int,
                    anim_data.vstart[k].index as int,
                    CHAIN_LIMIT as nat,
                ),
        ensures
            res.len() == anim_data.vstart.len(),
            forall|k: int|
                0 <= k < res.len() ==> (#[trigger] res[k]).index == k && frame_views(
                    res[k].frames@,
                ) == frames_from(
                    anim_data.vfra@,
                    anim_data.vele@,
                    anim_data.vstart[k].index as int,
                    anim_data.vstart[k].index as int,
                    CHAIN_LIMIT as nat,
                ),
    {
        let mut res: Vec<Self> = Vec::with_capacity(anim_data.vstart.len());
        let mut index: usize = 0;
        while index < anim_data.vstart.len()
            invariant
                index <= anim_data.vstart.len(),
                res.len() == index,
                forall|k: int|
                    0 <= k < anim_data.vstart.len() ==> frames_linked(
                        anim_data.vfra@,
                        anim_data.vele@,
                        (#[trigger] anim_data.vstart[k]).index as int,
                        anim_data.vstart[k].index as int,
                        CHAIN_LIMIT as nat,
                    ),
                forall|k: int|
                    0 <= k < res.len() ==> (#[trigger] res[k]).index == k && frame_views(
                        res[k].frames@,
                    ) == frames_from(
                        anim_data.vfra@,
                        anim_data.vele@,
                        anim_data.vstart[k].index as int,
                        anim_data.vstart[k].index as int,
                        CHAIN_LIMIT as nat,
                    ),
            decreases anim_data.vstart.len() - index,
        {
            let vstart = &anim_data.vstart[index];
            let frames = AnimationFrame::from_data(
                vstart.index,
                anim_data.vfra.as_slice(),
                anim_data.vele.as_slice(),
            );
            res.push(AnimationSequence { index, frames });
            index += 1;
        }
        res
    }

    /// The frames of all the sequences, one sequence after the other.
    pub fn get_frames(anim_seq_vec: &Vec<Self>) -> (frames: Vec<AnimationFrame>)
        ensures
            frame_views(frames@) == frames_of_all(anim_seq_vec@, anim_seq_vec.len() as nat),
    {
        let mut frames: Vec<AnimationFrame> = Vec::new();
        let mut k: usize = 0;
        proof {
            assert(frame_views(frames@) =~= Seq::empty());
        }
        while k < anim_seq_vec.len()
            invariant
                k <= anim_seq_vec.len(),
                frame_views(frames@) == frames_of_all(anim_seq_vec@, k as nat),
            decreases anim_seq_vec.len() - k,
        {
            let anim_seq = &anim_seq_vec[k];
            let ghost before = frame_views(frames@);
            let mut m: usize = 0;
            while m < anim_seq.frames.len()
                invariant
                    m <= anim_seq.frames.len(),
                    frame_views(frames@) == before + frame_views(anim_seq.frames@).take(m as int),
                decreases anim_seq.frames.len() - m,
            {
                let ghost so_far = frame_views(frames@);
                frames.push(anim_seq.frames[m].duplicate());
                proof {
                    assert(frame_views(frames@) =~= so_far.push(anim_seq.frames[m as int]@));
                    assert(frame_views(frames@) =~= before + frame_views(anim_seq.frames@).take(
                        m + 1,
                    ));
                }
                m += 1;
            }
            proof {
                assert(frame_views(anim_seq.frames@).take(anim_seq.frames.len() as int)
                    =~= frame_views(anim_seq.frames@));
            }
            k += 1;
        }
        frames
    }
}


/// Tells whether the chain of elements that starts at record `index` stays
/// inside the file.
pub fn elements_link(index: u16, vele: &[VeleRaw]) -> (b: bool)
    ensures
        b == elements_linked(vele@, index as int, CHAIN_LIMIT as nat),
{
    let mut at = index as usize;
    let mut seen: usize = 0;
    while at != 0 && seen < 256
        invariant
            seen <= CHAIN_LIMIT,
            elements_linked(vele@, index as int, CHAIN_LIMIT as nat) == elements_linked(
                vele@,
                at as int,
                (CHAIN_LIMIT - seen) as nat,
            ),
        decreases CHAIN_LIMIT - seen,
    {
        if at >= vele.len() {
            return false;
        }
        at = vele[at].next_index as usize;
        seen += 1;
    }
    true
}

/// Tells whether the chain of frames that starts at record `index`, and the
/// chain of elements of each of its frames, stay inside the files.
pub fn frames_link(index: u16, vfra: &[VfraRaw], vele: &[VeleRaw]) -> (b: bool)
    ensures
        b == frames_linked(vfra@, vele@, index as int, index as int, CHAIN_LIMIT as nat),
{
    let mut at = index as usize;
    let mut seen: usize = 0;
    while at != 0 && seen < 256
        invariant
            seen <= CHAIN_LIMIT,
            frames_linked(vfra@, vele@, index as int, index as int, CHAIN_LIMIT as nat)
                == frames_linked(
                vfra@,
                vele@,
                index as int,
                at as int,
                (CHAIN_LIMIT - seen) as nat,
            ),
        decreases CHAIN_LIMIT - seen,
    {
        if at >= vfra.len() {
            return false;
        }
        if !elements_link(vfra[at].index, vele) {
            return false;
        }
        let next = vfra[at].next_vfra;
        if next == index {
            return true;
        }
        at = next as usize;
        seen += 1;
    }
    true
}

impl AnimationsData {
    /// Tells whether every sequence stays inside the files.
    pub fn is_linked(&self) -> (b: bool)
        ensures
            b == forall|k: int|
                0 <= k < self.vstart.len() ==> frames_linked(
                    self.vfra@,
                    self.vele@,
                    (#[trigger] self.vstart[k]).index as int,
                    self.vstart[k].index as int,
                    CHAIN_LIMIT as nat,
                ),
    {
        let mut n: usize = 0;
        while n < self.vstart.len()
            invariant
                n <= self.vstart.len(),
                forall|k: int|
                    0 <= k < n ==> frames_linked(
                        self.vfra@,
                        self.vele@,
                        (#[trigger] self.vstart[k]).index as int,
                        self.vstart[k].index as int,
                        CHAIN_LIMIT as nat,
                    ),
            decreases self.vstart.len() - n,
        {
            if !frames_link(self.vstart[n].index, self.vfra.as_slice(), self.vele.as_slice()) {
                return false;
            }
            n += 1;
        }
        true
    }
}

} // verus!
