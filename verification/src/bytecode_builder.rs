//! The assembler: a streaming encoder of instructions with symbolic labels
//! and back-patching of forward references.

use vstd::prelude::*;
use std::collections::HashMap;
use crate::instruction::{
    decode, decode_is_local, decoded_fits, encoded_len, layout_of, reaches, reaches_append,
    reaches_end, suffix_decides, well_formed, well_formed_append, well_formed_from, Layout,
};
use crate::machine::jump_target;
use crate::opcodes::{
    low_byte, high_byte, split_word, word_of, ADD_F64, ADD_I64, CALL_HOST, F64_TO_I64, GTE_F64,
    GTE_I64, GT_F64, GT_I64, I64_TO_F64, JMP, JUMP_BACKWARD_IF_FALSE, JUMP_BACKWARD_IF_TRUE,
    JUMP_FORWARD_IF_FALSE, JUMP_FORWARD_IF_TRUE, LOAD_CONST_SLICE, LOAD_CONST_VALUE, LTE_F64,
    LTE_I64, LT_F64, LT_I64, MUL_F64, MUL_I64, SUB_F64, SUB_I64,
};

verus! {

broadcast use vstd::std_specs::hash::group_hash_axioms;

/// How the operand of a jump to a not yet placed label is to be filled in.
#[derive(Debug, Clone, Copy)]
pub enum JumpType {
    /// The operand is the absolute position of the label.
    Absolute,
    /// The operand is the distance from the operand to the label.
    ForwardIfFalse,
    /// The operand is the distance from the operand to the label.
    ForwardIfTrue,
}

/// A jump whose two operand bytes at `patch_position` wait for the label
/// `label_id` to be placed.
#[derive(Debug, Clone, Copy)]
pub struct PendingJump {
    pub label_id: u32,
    pub patch_position: u16,
    pub jump_type: JumpType,
}

/// `bytes` with the little-endian encoding of `v` written at `pos`.
pub open spec fn patched(bytes: Seq<u8>, pos: int, v: u16) -> Seq<u8> {
    bytes.update(pos, low_byte(v)).update(pos + 1, high_byte(v))
}

/// The position as the assembler counts it: the number of bytes emitted so
/// far, in 16 bits.
pub open spec fn position_of_len(len: nat) -> u16 {
    (len % 65536) as u16
}

/// The operand of a forward conditional jump at `pos` to `target`: the
/// dispatcher adds it to the position of the operand, `pos + 2`.
pub open spec fn forward_offset(pos: u16, target: u16) -> u16 {
    (target - pos - 2) as u16
}

/// The operand of a backward conditional jump at `pos` to `target`: the
/// dispatcher subtracts it from the position after the jump, `pos + 4`.
pub open spec fn backward_offset(pos: u16, target: u16) -> u16 {
    (pos - target + 4) as u16
}

/// A forward conditional jump at `pos` can reach `target`.
pub open spec fn forward_reachable(pos: u16, target: u16) -> bool {
    target >= pos + 2
}

/// A backward conditional jump at `pos` can reach `target`.
pub open spec fn backward_reachable(pos: u16, target: u16) -> bool {
    target < pos && pos - target + 4 <= 0xFFFF
}

/// The offsets that the assembler encodes lead the dispatcher to the
/// target: a forward jump at `pos` with the offset for `target` goes to
/// `target`, and so does a backward jump.
pub proof fn offsets_reach_target(pos: u16, target: u16)
    ensures
        forward_reachable(pos, target) ==> jump_target(
            JUMP_FORWARD_IF_FALSE,
            pos as int,
            forward_offset(pos, target),
        ) == target && jump_target(JUMP_FORWARD_IF_TRUE, pos as int, forward_offset(pos, target))
            == target,
        backward_reachable(pos, target) ==> jump_target(
            JUMP_BACKWARD_IF_FALSE,
            pos as int,
            backward_offset(pos, target),
        ) == target && jump_target(
            JUMP_BACKWARD_IF_TRUE,
            pos as int,
            backward_offset(pos, target),
        ) == target,
{
}

/// The label of `p` is placed, and not before the operand of a conditional
/// jump.
pub open spec fn resolvable(p: PendingJump, labels: Map<u32, u16>) -> bool {
    &&& labels.contains_key(p.label_id)
    &&& match p.jump_type {
        JumpType::Absolute => true,
        _ => labels[p.label_id] >= p.patch_position,
    }
}

/// The operand written for `p`: the label's position for an absolute jump,
/// the label's position minus the operand's position for a conditional one.
pub open spec fn patch_value(p: PendingJump, labels: Map<u32, u16>) -> u16 {
    match p.jump_type {
        JumpType::Absolute => labels[p.label_id],
        _ => (labels[p.label_id] - p.patch_position) as u16,
    }
}

/// `bytes` after the operands of all `pending` jumps were written, first to
/// last.
pub open spec fn resolved(bytes: Seq<u8>, pending: Seq<PendingJump>, labels: Map<u32, u16>) -> Seq<
    u8,
>
    decreases pending.len(),
{
    if pending.len() == 0 {
        bytes
    } else {
        resolved(
            patched(bytes, pending[0].patch_position as int, patch_value(pending[0], labels)),
            pending.skip(1),
            labels,
        )
    }
}

/// The operands of the jumps in `pending` lie inside `bytes` and do not
/// overlap.
pub open spec fn operands_apart(bytes: Seq<u8>, pending: Seq<PendingJump>) -> bool {
    &&& forall|i: int|
        0 <= i < pending.len() ==> (#[trigger] pending[i]).patch_position + 1 < bytes.len()
    &&& forall|i: int, j: int|
        0 <= i < j < pending.len() ==> (#[trigger] pending[i]).patch_position + 1 < (
        #[trigger] pending[j]).patch_position || pending[j].patch_position + 1
            < pending[i].patch_position
}

/// Resolution keeps the length of the buffer and every byte that is no
/// operand of a pending jump.
pub proof fn resolved_keeps_other_bytes(
    bytes: Seq<u8>,
    pending: Seq<PendingJump>,
    labels: Map<u32, u16>,
    at: int,
)
    requires
        0 <= at < bytes.len(),
        forall|i: int|
            0 <= i < pending.len() ==> (#[trigger] pending[i]).patch_position + 1 < bytes.len(),
        forall|i: int|
            0 <= i < pending.len() ==> at != (#[trigger] pending[i]).patch_position && at
                != pending[i].patch_position + 1,
    ensures
        resolved(bytes, pending, labels).len() == bytes.len(),
        resolved(bytes, pending, labels)[at] == bytes[at],
    decreases pending.len(),
{
    if pending.len() > 0 {
        let first = pending[0];
        let next = patched(bytes, first.patch_position as int, patch_value(first, labels));
        let rest = pending.skip(1);
        assert forall|i: int| 0 <= i < rest.len() implies (#[trigger] rest[i]).patch_position + 1
            < next.len() && at != rest[i].patch_position && at != rest[i].patch_position + 1 by {
            assert(rest[i] == pending[i + 1]);
        }
        resolved_keeps_other_bytes(next, rest, labels, at);
    }
}

/// Label resolution: once the assembler has resolved its pending jumps, the
/// operand of each of them reads as the value that belongs to it. For a
/// conditional jump whose label was placed at or after the operand, that is
/// the position of the label minus the position of the operand.
pub proof fn resolved_operand_is_distance(
    bytes: Seq<u8>,
    pending: Seq<PendingJump>,
    labels: Map<u32, u16>,
    k: int,
)
    requires
        0 <= k < pending.len(),
        operands_apart(bytes, pending),
    ensures
        ({
            let code = resolved(bytes, pending, labels);
            let at = pending[k].patch_position as int;
            &&& code.len() == bytes.len()
            &&& word_of(code[at], code[at + 1]) == patch_value(pending[k], labels)
            &&& resolvable(pending[k], labels) && !(pending[k].jump_type is Absolute) ==> word_of(
                code[at],
                code[at + 1],
            ) == labels[pending[k].label_id] - pending[k].patch_position
        }),
    decreases pending.len(),
{
    let first = pending[0];
    let value = patch_value(first, labels);
    let next = patched(bytes, first.patch_position as int, value);
    let rest = pending.skip(1);
    assert forall|i: int| 0 <= i < rest.len() implies (#[trigger] rest[i]).patch_position + 1
        < next.len() by {
        assert(rest[i] == pending[i + 1]);
    }
    if k == 0 {
        let at = first.patch_position as int;
        assert forall|i: int| 0 <= i < rest.len() implies at != (#[trigger] rest[i]).patch_position
            && at != rest[i].patch_position + 1 && at + 1 != rest[i].patch_position && at + 1
            != rest[i].patch_position + 1 by {
            assert(rest[i] == pending[i + 1]);
        }
        resolved_keeps_other_bytes(next, rest, labels, at);
        resolved_keeps_other_bytes(next, rest, labels, at + 1);
        crate::opcodes::word_bytes_round_trip(value, 0, 0);
    } else {
        assert(operands_apart(next, rest)) by {
            assert forall|i: int, j: int| 0 <= i < j < rest.len() implies (#[trigger] rest[i]).patch_position
                + 1 < (#[trigger] rest[j]).patch_position || rest[j].patch_position + 1
                < rest[i].patch_position by {
                assert(rest[i] == pending[i + 1]);
                assert(rest[j] == pending[j + 1]);
            }
        }
        assert(rest[k - 1] == pending[k]);
        resolved_operand_is_distance(next, rest, labels, k - 1);
    }
}

/// `pos` is the position of the operand of a jump instruction of `code`.
pub open spec fn is_jump_operand(code: Seq<u8>, pos: int) -> bool {
    &&& pos + 1 < code.len()
    &&& ({
        ||| pos >= 2 && reaches(code, 0, pos - 2) && layout_of(code[pos - 2]) == Some(
            Layout::ConditionalJump,
        )
        ||| pos >= 1 && reaches(code, 0, pos - 1) && code[pos - 1] == JMP
    })
}

/// `start` is the jump instruction whose operand is at `pos`.
pub open spec fn is_jump_at(code: Seq<u8>, start: int, pos: int) -> bool {
    &&& 0 <= start
    &&& pos + 1 < code.len()
    &&& ({
        ||| start == pos - 2 && layout_of(code[start]) == Some(Layout::ConditionalJump)
        ||| start == pos - 1 && code[start] == JMP
    })
}

/// Two instruction starts that are reached from one position do not lie
/// inside each other's instruction.
pub proof fn starts_do_not_overlap(code: Seq<u8>, pc: int, first: int, second: int)
    requires
        0 <= pc,
        reaches(code, pc, first),
        reaches(code, pc, second),
        first < second,
        first < code.len(),
        decode(code, first) is Ok,
    ensures
        second >= first + encoded_len(decode(code, first)->Ok_0),
    decreases code.len() - pc,
{
    if pc == first {
        assert(reaches(code, first + encoded_len(decode(code, first)->Ok_0), second));
    } else {
        decoded_fits(code, pc);
        starts_do_not_overlap(code, pc + encoded_len(decode(code, pc)->Ok_0), first, second);
    }
}

/// Writing the operand of a jump changes no instruction boundary: what
/// was well formed stays so, and what was reached is still reached.
pub proof fn patch_keeps_structure(code: Seq<u8>, start: int, pos: int, v: u16, pc: int, at: int)
    requires
        0 <= pc,
        is_jump_at(code, start, pos),
        reaches(code, pc, start),
    ensures
        well_formed_from(code, pc) ==> well_formed_from(patched(code, pos, v), pc),
        reaches(code, pc, at) ==> reaches(patched(code, pos, v), pc, at),
    decreases code.len() - pc,
{
    let after = patched(code, pos, v);
    if pc == start {
        assert(after[start] == code[start]);
        assert(decode(code, start) is Ok);
        assert(decode(after, start) is Ok);
        let len = encoded_len(decode(code, start)->Ok_0);
        assert(encoded_len(decode(after, start)->Ok_0) == len);
        suffix_decides(code, after, start + len, at);
    } else {
        decoded_fits(code, pc);
        let len = encoded_len(decode(code, pc)->Ok_0);
        assert(reaches(code, pc + len, start));
        decode_is_local(code, after, pc);
        patch_keeps_structure(code, start, pos, v, pc + len, at);
    }
}

/// Writing the operand of one jump leaves every jump operand a jump
/// operand.
pub proof fn patch_keeps_operands(code: Seq<u8>, pos: int, v: u16, other: int)
    requires
        is_jump_operand(code, pos),
        is_jump_operand(code, other),
    ensures
        is_jump_operand(patched(code, pos, v), other),
        patched(code, pos, v).len() == code.len(),
{
    let start = if pos >= 2 && reaches(code, 0, pos - 2) && layout_of(code[pos - 2]) == Some(
        Layout::ConditionalJump,
    ) {
        pos - 2
    } else {
        pos - 1
    };
    let other_start = if other >= 2 && reaches(code, 0, other - 2) && layout_of(code[other - 2])
        == Some(Layout::ConditionalJump) {
        other - 2
    } else {
        other - 1
    };
    assert(decode(code, start) is Ok);
    assert(decode(code, other_start) is Ok);
    if start < other_start {
        starts_do_not_overlap(code, 0, start, other_start);
    }
    patch_keeps_structure(code, start, pos, v, 0, other_start);
    assert(patched(code, pos, v)[other_start] == code[other_start]);
}

/// Writing the operand of a jump keeps a well-formed buffer well formed.
pub proof fn patch_keeps_well_formed(code: Seq<u8>, pos: int, v: u16)
    requires
        is_jump_operand(code, pos),
        well_formed(code),
    ensures
        well_formed(patched(code, pos, v)),
{
    let start = if pos >= 2 && reaches(code, 0, pos - 2) && layout_of(code[pos - 2]) == Some(
        Layout::ConditionalJump,
    ) {
        pos - 2
    } else {
        pos - 1
    };
    patch_keeps_structure(code, start, pos, v, 0, 0);
}

/// A jump operand of a buffer is a jump operand of every extension of the
/// buffer.
pub proof fn operand_stays(code: Seq<u8>, tail: Seq<u8>, pos: int)
    requires
        is_jump_operand(code, pos),
    ensures
        is_jump_operand(code + tail, pos),
{
    if pos >= 2 && reaches(code, 0, pos - 2) && layout_of(code[pos - 2]) == Some(
        Layout::ConditionalJump,
    ) {
        reaches_append(code, tail, 0, pos - 2);
        assert((code + tail)[pos - 2] == code[pos - 2]);
    } else {
        reaches_append(code, tail, 0, pos - 1);
        assert((code + tail)[pos - 1] == code[pos - 1]);
    }
}

/// The operand of a jump instruction that was appended to a well-formed
/// buffer is a jump operand.
pub proof fn appended_jump_has_operand(code: Seq<u8>, tail: Seq<u8>)
    requires
        well_formed(code),
        tail.len() == 4 && layout_of(tail[0]) == Some(Layout::ConditionalJump) || tail.len() == 3
            && tail[0] == JMP,
    ensures
        is_jump_operand(code + tail, code.len() + tail.len() - 2),
{
    reaches_end(code, 0);
    reaches_append(code, tail, 0, code.len() as int);
    assert((code + tail)[code.len() as int] == tail[0]);
}

/// The assembler. Instructions are appended to a byte buffer; labels name
/// positions in it; a jump to a label that is not yet placed is recorded and
/// filled in by [`BytecodeBuilder::build`].
pub struct BytecodeBuilder {
    bytecode: Vec<u8>,
    labels: HashMap<u32, u16>,
    next_label_id: u32,
    pending_jumps: Vec<PendingJump>,
}

impl BytecodeBuilder {
    /// The buffer is no longer than the largest position, 65535, and the
    /// operands of the pending jumps lie inside it and apart from each
    /// other. This holds of a new assembler and is kept by every operation.
    pub closed spec fn wf(&self) -> bool {
        &&& self.bytecode@.len() <= 0xFFFF
        &&& operands_apart(self.bytecode@, self.pending_jumps@)
    }

    /// The buffer is a sequence of complete instructions, and every pending
    /// jump waits at the operand of a jump instruction. This holds of a new
    /// assembler, and every emitter keeps it; only a patch of bytes that
    /// are no jump operand can end it.
    pub closed spec fn sound(&self) -> bool {
        &&& well_formed(self.bytecode@)
        &&& forall|i: int|
            0 <= i < self.pending_jumps@.len() ==> is_jump_operand(
                self.bytecode@,
                (#[trigger] self.pending_jumps@[i]).patch_position as int,
            )
    }

    /// The buffer of a valid assembler ends at a position: it holds at most
    /// 65535 bytes, and the current position is its length.
    pub proof fn within_positions(&self)
        requires
            self.wf(),
        ensures
            self.bytes().len() <= 0xFFFF,
            self.position() == self.bytes().len(),
    {
    }

    /// The bytes emitted so far.
    pub closed spec fn bytes(&self) -> Seq<u8> {
        self.bytecode@
    }

    /// The labels placed so far, each with its position.
    pub closed spec fn placed(&self) -> Map<u32, u16> {
        self.labels@
    }

    /// The jumps that wait for their label, in the order of emission.
    pub closed spec fn pending(&self) -> Seq<PendingJump> {
        self.pending_jumps@
    }

    /// The identifier that the next created label gets.
    pub closed spec fn next_label(&self) -> u32 {
        self.next_label_id
    }

    /// The current position, as [`BytecodeBuilder::current_pos`] returns it.
    pub open spec fn position(&self) -> u16 {
        position_of_len(self.bytes().len())
    }

    /// `after` is `before` with `tail` appended and nothing else changed.
    pub open spec fn appended(before: &Self, after: &Self, tail: Seq<u8>) -> bool {
        &&& after.bytes() == before.bytes() + tail
        &&& after.placed() == before.placed()
        &&& after.pending() == before.pending()
        &&& after.next_label() == before.next_label()
    }

    /// An assembler with no bytes, no labels and no pending jumps.
    pub fn new() -> (b: Self)
        ensures
            b.wf(),
            b.sound(),
            b.bytes() == Seq::<u8>::empty(),
            b.placed() == Map::<u32, u16>::empty(),
            b.pending() == Seq::<PendingJump>::empty(),
            b.next_label() == 0,
    {
        BytecodeBuilder {
            bytecode: Vec::new(),
            labels: HashMap::new(),
            next_label_id: 0,
            pending_jumps: Vec::new(),
        }
    }

    /// The number of bytes emitted so far.
    pub fn len(&self) -> (n: usize)
        ensures
            n == self.bytes().len(),
    {
        self.bytecode.len()
    }

    /// The current position: the number of bytes emitted so far.
    pub fn current_pos(&self) -> (pos: u16)
        requires
            self.wf(),
        ensures
            pos == self.position(),
            pos == self.bytes().len(),
    {
        (self.bytecode.len() % 65536) as u16
    }

    /// Creates a label that is not yet placed and returns its identifier.
    pub fn create_label(&mut self) -> (id: u32)
        requires
            old(self).wf(),
            old(self).next_label() < u32::MAX,
        ensures
            final(self).wf(),
            old(self).sound() ==> final(self).sound(),
            id == old(self).next_label(),
            final(self).next_label() == id + 1,
            final(self).bytes() == old(self).bytes(),
            final(self).placed() == old(self).placed(),
            final(self).pending() == old(self).pending(),
    {
        let label_id: u32 = self.next_label_id;
        self.next_label_id = label_id + 1;
        label_id
    }

    /// Places the label at the current position. A label that is placed
    /// again moves.
    pub fn place_label(&mut self, label_id: u32)
        requires
            old(self).wf(),
        ensures
            final(self).wf(),
            old(self).sound() ==> final(self).sound(),
            final(self).placed() == old(self).placed().insert(label_id, old(self).position()),
            final(self).bytes() == old(self).bytes(),
            final(self).pending() == old(self).pending(),
            final(self).next_label() == old(self).next_label(),
    {
        let pos: u16 = self.current_pos();
        self.labels.insert(label_id, pos);
    }

    fn emit3(&mut self, a: u8, b: u8, c: u8)
        requires
            old(self).wf(),
            old(self).bytes().len() + 3 <= 0xFFFF,
            layout_of(a) == Some(Layout::Convert) || layout_of(a) == Some(Layout::Jump) || layout_of(
                a,
            ) == Some(Layout::CallHost),
        ensures
            final(self).wf(),
            old(self).sound() ==> final(self).sound(),
            Self::appended(old(self), final(self), seq![a, b, c]),
    {
        self.bytecode.push(a);
        self.bytecode.push(b);
        self.bytecode.push(c);
        assert(self.bytecode@ =~= old(self).bytecode@ + seq![a, b, c]);
        proof {
            if old(self).sound() {
                let tail = seq![a, b, c];
                assert(decode(tail, 0) is Ok);
                well_formed_append(old(self).bytecode@, tail, 0);
                assert forall|i: int| 0 <= i < self.pending_jumps@.len() implies is_jump_operand(
                    self.bytecode@,
                    (#[trigger] self.pending_jumps@[i]).patch_position as int,
                ) by {
                    operand_stays(
                        old(self).bytecode@,
                        tail,
                        self.pending_jumps@[i].patch_position as int,
                    );
                }
            }
        }
    }

    fn emit4(&mut self, a: u8, b: u8, c: u8, d: u8)
        requires
            old(self).wf(),
            old(self).bytes().len() + 4 <= 0xFFFF,
            layout_of(a) == Some(Layout::Binary) || layout_of(a) == Some(Layout::LoadConst)
                || layout_of(a) == Some(Layout::ConditionalJump),
        ensures
            final(self).wf(),
            old(self).sound() ==> final(self).sound(),
            Self::appended(old(self), final(self), seq![a, b, c, d]),
    {
        self.bytecode.push(a);
        self.bytecode.push(b);
        self.bytecode.push(c);
        self.bytecode.push(d);
        assert(self.bytecode@ =~= old(self).bytecode@ + seq![a, b, c, d]);
        proof {
            if old(self).sound() {
                let tail = seq![a, b, c, d];
                assert(decode(tail, 0) is Ok);
                well_formed_append(old(self).bytecode@, tail, 0);
                assert forall|i: int| 0 <= i < self.pending_jumps@.len() implies is_jump_operand(
                    self.bytecode@,
                    (#[trigger] self.pending_jumps@[i]).patch_position as int,
                ) by {
                    operand_stays(
                        old(self).bytecode@,
                        tail,
                        self.pending_jumps@[i].patch_position as int,
                    );
                }
            }
        }
    }

    /// Emits `dst = r1 + r2` on integers.
    pub fn add_i64(&mut self, r1: u8, r2: u8, dst: u8)
        requires
            old(self).wf(),
            old(self).bytes().len() + 4 <= 0xFFFF,
        ensures
            final(self).wf(),
            old(self).sound() ==> final(self).sound(),
            Self::appended(old(self), final(self), seq![ADD_I64, r1, r2, dst]),
    {
        self.emit4(ADD_I64, r1, r2, dst);
    }

    /// Emits `dst = r1 - r2` on integers.
    pub fn sub_i64(&mut self, r1: u8, r2: u8, dst: u8)
        requires
            old(self).wf(),
            old(self).bytes().len() + 4 <= 0xFFFF,
        ensures
            final(self).wf(),
            old(self).sound() ==> final(self).sound(),
            Self::appended(old(self), final(self), seq![SUB_I64, r1, r2, dst]),
    {
        self.emit4(SUB_I64, r1, r2, dst);
    }

    /// Emits `dst = r1 * r2` on integers.
    pub fn mul_i64(&mut self, r1: u8, r2: u8, dst: u8)
        requires
            old(self).wf(),
            old(self).bytes().len() + 4 <= 0xFFFF,
        ensures
            final(self).wf(),
            old(self).sound() ==> final(self).sound(),
            Self::appended(old(self), final(self), seq![MUL_I64, r1, r2, dst]),
    {
        self.emit4(MUL_I64, r1, r2, dst);
    }

    /// Emits `dst = r1 > r2` on integers.
    pub fn gt_i64(&mut self, r1: u8, r2: u8, dst: u8)
        requires
            old(self).wf(),
            old(self).bytes().len() + 4 <= 0xFFFF,
        ensures
            final(self).wf(),
            old(self).sound() ==> final(self).sound(),
            Self::appended(old(self), final(self), seq![GT_I64, r1, r2, dst]),
    {
        self.emit4(GT_I64, r1, r2, dst);
    }

    /// Emits `dst = r1 >= r2` on integers.
    pub fn gte_i64(&mut self, r1: u8, r2: u8, dst: u8)
        requires
            old(self).wf(),
            old(self).bytes().len() + 4 <= 0xFFFF,
        ensures
            final(self).wf(),
            old(self).sound() ==> final(self).sound(),
            Self::appended(old(self), final(self), seq![GTE_I64, r1, r2, dst]),
    {
        self.emit4(GTE_I64, r1, r2, dst);
    }

    /// Emits `dst = r1 < r2` on integers.
    pub fn lt_i64(&mut self, r1: u8, r2: u8, dst: u8)
        requires
            old(self).wf(),
            old(self).bytes().len() + 4 <= 0xFFFF,
        ensures
            final(self).wf(),
            old(self).sound() ==> final(self).sound(),
            Self::appended(old(self), final(self), seq![LT_I64, r1, r2, dst]),
    {
        self.emit4(LT_I64, r1, r2, dst);
    }

    /// Emits `dst = r1 <= r2` on integers.
    pub fn lte_i64(&mut self, r1: u8, r2: u8, dst: u8)
        requires
            old(self).wf(),
            old(self).bytes().len() + 4 <= 0xFFFF,
        ensures
            final(self).wf(),
            old(self).sound() ==> final(self).sound(),
            Self::appended(old(self), final(self), seq![LTE_I64, r1, r2, dst]),
    {
        self.emit4(LTE_I64, r1, r2, dst);
    }

    /// Emits `dst = r1 + r2` on doubles.
    pub fn add_f64(&mut self, r1: u8, r2: u8, dst: u8)
        requires
            old(self).wf(),
            old(self).bytes().len() + 4 <= 0xFFFF,
        ensures
            final(self).wf(),
            old(self).sound() ==> final(self).sound(),
            Self::appended(old(self), final(self), seq![ADD_F64, r1, r2, dst]),
    {
        self.emit4(ADD_F64, r1, r2, dst);
    }

    /// Emits `dst = r1 - r2` on doubles.
    pub fn sub_f64(&mut self, r1: u8, r2: u8, dst: u8)
        requires
            old(self).wf(),
            old(self).bytes().len() + 4 <= 0xFFFF,
        ensures
            final(self).wf(),
            old(self).sound() ==> final(self).sound(),
            Self::appended(old(self), final(self), seq![SUB_F64, r1, r2, dst]),
    {
        self.emit4(SUB_F64, r1, r2, dst);
    }

    /// Emits `dst = r1 * r2` on doubles.
    pub fn mul_f64(&mut self, r1: u8, r2: u8, dst: u8)
        requires
            old(self).wf(),
            old(self).bytes().len() + 4 <= 0xFFFF,
        ensures
            final(self).wf(),
            old(self).sound() ==> final(self).sound(),
            Self::appended(old(self), final(self), seq![MUL_F64, r1, r2, dst]),
    {
        self.emit4(MUL_F64, r1, r2, dst);
    }

    /// Emits `dst = r1 > r2` on doubles.
    pub fn gt_f64(&mut self, r1: u8, r2: u8, dst: u8)
        requires
            old(self).wf(),
            old(self).bytes().len() + 4 <= 0xFFFF,
        ensures
            final(self).wf(),
            old(self).sound() ==> final(self).sound(),
            Self::appended(old(self), final(self), seq![GT_F64, r1, r2, dst]),
    {
        self.emit4(GT_F64, r1, r2, dst);
    }

    /// Emits `dst = r1 >= r2` on doubles.
    pub fn gte_f64(&mut self, r1: u8, r2: u8, dst: u8)
        requires
            old(self).wf(),
            old(self).bytes().len() + 4 <= 0xFFFF,
        ensures
            final(self).wf(),
            old(self).sound() ==> final(self).sound(),
            Self::appended(old(self), final(self), seq![GTE_F64, r1, r2, dst]),
    {
        self.emit4(GTE_F64, r1, r2, dst);
    }

    /// Emits `dst = r1 < r2` on doubles.
    pub fn lt_f64(&mut self, r1: u8, r2: u8, dst: u8)
        requires
            old(self).wf(),
            old(self).bytes().len() + 4 <= 0xFFFF,
        ensures
            final(self).wf(),
            old(self).sound() ==> final(self).sound(),
            Self::appended(old(self), final(self), seq![LT_F64, r1, r2, dst]),
    {
        self.emit4(LT_F64, r1, r2, dst);
    }

    /// Emits `dst = r1 <= r2` on doubles.
    pub fn lte_f64(&mut self, r1: u8, r2: u8, dst: u8)
        requires
            old(self).wf(),
            old(self).bytes().len() + 4 <= 0xFFFF,
        ensures
            final(self).wf(),
            old(self).sound() ==> final(self).sound(),
            Self::appended(old(self), final(self), seq![LTE_F64, r1, r2, dst]),
    {
        self.emit4(LTE_F64, r1, r2, dst);
    }

    /// Emits the conversion of the integer in `src` to a double in `dst`.
    pub fn i64_to_f64(&mut self, src: u8, dst: u8)
        requires
            old(self).wf(),
            old(self).bytes().len() + 3 <= 0xFFFF,
        ensures
            final(self).wf(),
            old(self).sound() ==> final(self).sound(),
            Self::appended(old(self), final(self), seq![I64_TO_F64, src, dst]),
    {
        self.emit3(I64_TO_F64, src, dst);
    }

    /// Emits the truncating conversion of the double in `src` to an integer
    /// in `dst`.
    pub fn f64_to_i64(&mut self, src: u8, dst: u8)
        requires
            old(self).wf(),
            old(self).bytes().len() + 3 <= 0xFFFF,
        ensures
            final(self).wf(),
            old(self).sound() ==> final(self).sound(),
            Self::appended(old(self), final(self), seq![F64_TO_I64, src, dst]),
    {
        self.emit3(F64_TO_I64, src, dst);
    }

    /// Emits the load of the value constant `index` into `dst`.
    pub fn load_const_value(&mut self, index: u16, dst: u8)
        requires
            old(self).wf(),
            old(self).bytes().len() + 4 <= 0xFFFF,
        ensures
            final(self).wf(),
            old(self).sound() ==> final(self).sound(),
            Self::appended(
                old(self),
                final(self),
                seq![LOAD_CONST_VALUE, dst, low_byte(index), high_byte(index)],
            ),
    {
        let (lo, hi) = split_word(index);
        self.emit4(LOAD_CONST_VALUE, dst, lo, hi);
    }

    /// Emits the load of the slice constant `index`: its address goes to
    /// `dst`, its length to the register after `dst`.
    pub fn load_const_slice(&mut self, index: u16, dst: u8)
        requires
            old(self).wf(),
            old(self).bytes().len() + 4 <= 0xFFFF,
        ensures
            final(self).wf(),
            old(self).sound() ==> final(self).sound(),
            Self::appended(
                old(self),
                final(self),
                seq![LOAD_CONST_SLICE, dst, low_byte(index), high_byte(index)],
            ),
    {
        let (lo, hi) = split_word(index);
        self.emit4(LOAD_CONST_SLICE, dst, lo, hi);
    }

    /// Emits the call of the host function whose index is held in register
    /// `reg` of the current frame.
    pub fn call_host(&mut self, reg: u16)
        requires
            old(self).wf(),
            old(self).bytes().len() + 3 <= 0xFFFF,
        ensures
            final(self).wf(),
            old(self).sound() ==> final(self).sound(),
            Self::appended(
                old(self),
                final(self),
                seq![CALL_HOST, low_byte(reg), high_byte(reg)],
            ),
    {
        let (lo, hi) = split_word(reg);
        self.emit3(CALL_HOST, lo, hi);
    }

    /// Emits a forward jump taken when `cond_reg` is zero, with a zero
    /// operand, and returns the position of the operand for later patching.
    pub fn jump_forward_if_false(&mut self, cond_reg: u8) -> (operand: u16)
        requires
            old(self).wf(),
            old(self).bytes().len() + 4 <= 0xFFFF,
        ensures
            final(self).wf(),
            old(self).sound() ==> final(self).sound(),
            old(self).sound() ==> is_jump_operand(
                final(self).bytes(),
                operand as int,
            ),
            Self::appended(old(self), final(self), seq![JUMP_FORWARD_IF_FALSE, cond_reg, 0, 0]),
            operand == position_of_len(old(self).bytes().len() + 2),
            operand + 1 < final(self).bytes().len(),
    {
        let operand: u16 = ((self.bytecode.len() % 65536 + 2) % 65536) as u16;
        self.emit4(JUMP_FORWARD_IF_FALSE, cond_reg, 0, 0);
        proof {
            if old(self).sound() && self.bytecode@.len() <= 0xFFFF {
                appended_jump_has_operand(old(self).bytecode@, seq![JUMP_FORWARD_IF_FALSE, cond_reg, 0, 0]);
            }
        }
        operand
    }

    /// Emits a forward jump taken when `cond_reg` is not zero, with a zero
    /// operand, and returns the position of the operand for later patching.
    pub fn jump_forward_if_true(&mut self, cond_reg: u8) -> (operand: u16)
        requires
            old(self).wf(),
            old(self).bytes().len() + 4 <= 0xFFFF,
        ensures
            final(self).wf(),
            old(self).sound() ==> final(self).sound(),
            old(self).sound() ==> is_jump_operand(
                final(self).bytes(),
                operand as int,
            ),
            Self::appended(old(self), final(self), seq![JUMP_FORWARD_IF_TRUE, cond_reg, 0, 0]),
            operand == position_of_len(old(self).bytes().len() + 2),
            operand + 1 < final(self).bytes().len(),
    {
        let operand: u16 = ((self.bytecode.len() % 65536 + 2) % 65536) as u16;
        self.emit4(JUMP_FORWARD_IF_TRUE, cond_reg, 0, 0);
        proof {
            if old(self).sound() && self.bytecode@.len() <= 0xFFFF {
                appended_jump_has_operand(old(self).bytecode@, seq![JUMP_FORWARD_IF_TRUE, cond_reg, 0, 0]);
            }
        }
        operand
    }

    /// Emits a backward jump by `offset`, taken when `cond_reg` is zero.
    pub fn jump_backward_if_false(&mut self, cond_reg: u8, offset: u16)
        requires
            old(self).wf(),
            old(self).bytes().len() + 4 <= 0xFFFF,
        ensures
            final(self).wf(),
            old(self).sound() ==> final(self).sound(),
            Self::appended(
                old(self),
                final(self),
                seq![JUMP_BACKWARD_IF_FALSE, cond_reg, low_byte(offset), high_byte(offset)],
            ),
    {
        let (lo, hi) = split_word(offset);
        self.emit4(JUMP_BACKWARD_IF_FALSE, cond_reg, lo, hi);
    }

    /// Emits a backward jump by `offset`, taken when `cond_reg` is not zero.
    pub fn jump_backward_if_true(&mut self, cond_reg: u8, offset: u16)
        requires
            old(self).wf(),
            old(self).bytes().len() + 4 <= 0xFFFF,
        ensures
            final(self).wf(),
            old(self).sound() ==> final(self).sound(),
            Self::appended(
                old(self),
                final(self),
                seq![JUMP_BACKWARD_IF_TRUE, cond_reg, low_byte(offset), high_byte(offset)],
            ),
    {
        let (lo, hi) = split_word(offset);
        self.emit4(JUMP_BACKWARD_IF_TRUE, cond_reg, lo, hi);
    }

    /// Emits an unconditional jump to the absolute position `target` and
    /// returns the position of the operand for later patching.
    pub fn jmp(&mut self, target: u16) -> (operand: u16)
        requires
            old(self).wf(),
            old(self).bytes().len() + 3 <= 0xFFFF,
        ensures
            final(self).wf(),
            old(self).sound() ==> final(self).sound(),
            old(self).sound() ==> is_jump_operand(
                final(self).bytes(),
                operand as int,
            ),
            Self::appended(old(self), final(self), seq![JMP, low_byte(target), high_byte(target)]),
            operand == position_of_len(old(self).bytes().len() + 1),
            operand + 1 < final(self).bytes().len(),
    {
        let operand: u16 = ((self.bytecode.len() % 65536 + 1) % 65536) as u16;
        let (lo, hi) = split_word(target);
        self.emit3(JMP, lo, hi);
        proof {
            if old(self).sound() && self.bytecode@.len() <= 0xFFFF {
                appended_jump_has_operand(old(self).bytecode@, seq![JMP, lo, hi]);
            }
        }
        operand
    }

    /// Overwrites the two operand bytes at `target_pos` with `target_value`.
    pub fn patch_target(&mut self, target_pos: u16, target_value: u16)
        requires
            old(self).wf(),
            target_pos + 1 < old(self).bytes().len(),
        ensures
            final(self).wf(),
            old(self).sound() && is_jump_operand(old(self).bytes(), target_pos as int)
                ==> final(self).sound(),
            final(self).bytes() == patched(old(self).bytes(), target_pos as int, target_value),
            final(self).placed() == old(self).placed(),
            final(self).pending() == old(self).pending(),
            final(self).next_label() == old(self).next_label(),
    {
        let pos: usize = target_pos as usize;
        let (lo, hi) = split_word(target_value);
        self.bytecode.set(pos, lo);
        self.bytecode.set(pos + 1, hi);
        proof {
            if old(self).sound() && is_jump_operand(old(self).bytecode@, target_pos as int) {
                patch_keeps_well_formed(old(self).bytecode@, target_pos as int, target_value);
                assert forall|i: int| 0 <= i < self.pending_jumps@.len() implies is_jump_operand(
                    self.bytecode@,
                    (#[trigger] self.pending_jumps@[i]).patch_position as int,
                ) by {
                    patch_keeps_operands(
                        old(self).bytecode@,
                        target_pos as int,
                        target_value,
                        self.pending_jumps@[i].patch_position as int,
                    );
                }
            }
        }
    }

    /// Emits a forward jump to the absolute position `target`, taken when
    /// `cond_reg` is zero.
    pub fn jump_forward_if_false_to(&mut self, cond_reg: u8, target: u16)
        requires
            old(self).wf(),
            old(self).bytes().len() + 4 <= 0xFFFF,
            forward_reachable(old(self).position(), target),
        ensures
            final(self).wf(),
            old(self).sound() ==> final(self).sound(),
            Self::appended(
                old(self),
                final(self),
                seq![
                    JUMP_FORWARD_IF_FALSE,
                    cond_reg,
                    low_byte(forward_offset(old(self).position(), target)),
                    high_byte(forward_offset(old(self).position(), target)),
                ],
            ),
    {
        let current: u16 = self.current_pos();
        let offset: u16 = target - current - 2;
        let (lo, hi) = split_word(offset);
        self.emit4(JUMP_FORWARD_IF_FALSE, cond_reg, lo, hi);
    }

    /// Emits a forward jump to the absolute position `target`, taken when
    /// `cond_reg` is not zero.
    pub fn jump_forward_if_true_to(&mut self, cond_reg: u8, target: u16)
        requires
            old(self).wf(),
            old(self).bytes().len() + 4 <= 0xFFFF,
            forward_reachable(old(self).position(), target),
        ensures
            final(self).wf(),
            old(self).sound() ==> final(self).sound(),
            Self::appended(
                old(self),
                final(self),
                seq![
                    JUMP_FORWARD_IF_TRUE,
                    cond_reg,
                    low_byte(forward_offset(old(self).position(), target)),
                    high_byte(forward_offset(old(self).position(), target)),
                ],
            ),
    {
        let current: u16 = self.current_pos();
        let offset: u16 = target - current - 2;
        let (lo, hi) = split_word(offset);
        self.emit4(JUMP_FORWARD_IF_TRUE, cond_reg, lo, hi);
    }

    /// Emits a backward jump to the absolute position `target`, taken when
    /// `cond_reg` is zero.
    pub fn jump_backward_if_false_to(&mut self, cond_reg: u8, target: u16)
        requires
            old(self).wf(),
            old(self).bytes().len() + 4 <= 0xFFFF,
            backward_reachable(old(self).position(), target),
        ensures
            final(self).wf(),
            old(self).sound() ==> final(self).sound(),
            Self::appended(
                old(self),
                final(self),
                seq![
                    JUMP_BACKWARD_IF_FALSE,
                    cond_reg,
                    low_byte(backward_offset(old(self).position(), target)),
                    high_byte(backward_offset(old(self).position(), target)),
                ],
            ),
    {
        let current: u16 = self.current_pos();
        let offset: u16 = current - target + 4;
        self.jump_backward_if_false(cond_reg, offset);
    }

    /// Emits a backward jump to the absolute position `target`, taken when
    /// `cond_reg` is not zero.
    pub fn jump_backward_if_true_to(&mut self, cond_reg: u8, target: u16)
        requires
            old(self).wf(),
            old(self).bytes().len() + 4 <= 0xFFFF,
            backward_reachable(old(self).position(), target),
        ensures
            final(self).wf(),
            old(self).sound() ==> final(self).sound(),
            Self::appended(
                old(self),
                final(self),
                seq![
                    JUMP_BACKWARD_IF_TRUE,
                    cond_reg,
                    low_byte(backward_offset(old(self).position(), target)),
                    high_byte(backward_offset(old(self).position(), target)),
                ],
            ),
    {
        let current: u16 = self.current_pos();
        let offset: u16 = current - target + 4;
        self.jump_backward_if_true(cond_reg, offset);
    }

    /// Emits an unconditional jump to the absolute position `target`.
    pub fn jmp_to(&mut self, target: u16)
        requires
            old(self).wf(),
            old(self).bytes().len() + 3 <= 0xFFFF,
        ensures
            final(self).wf(),
            old(self).sound() ==> final(self).sound(),
            Self::appended(old(self), final(self), seq![JMP, low_byte(target), high_byte(target)]),
    {
        let (lo, hi) = split_word(target);
        self.emit3(JMP, lo, hi);
    }

    fn label_position(&self, label_id: u32) -> (r: Option<u16>)
        ensures
            r == if self.placed().contains_key(label_id) {
                Some(self.placed()[label_id])
            } else {
                None
            },
    {
        match self.labels.get(&label_id) {
            Some(target) => Some(*target),
            None => None,
        }
    }

    fn defer(&mut self, label_id: u32, patch_position: u16, jump_type: JumpType)
        requires
            old(self).wf(),
            patch_position + 1 < old(self).bytes().len(),
            forall|i: int|
                0 <= i < old(self).pending().len() ==> (#[trigger] old(self).pending()[i]).patch_position
                    + 1 < patch_position,
        ensures
            final(self).wf(),
            old(self).sound() && is_jump_operand(old(self).bytes(), patch_position as int)
                ==> final(self).sound(),
            final(self).pending() == old(self).pending().push(
                (PendingJump { label_id, patch_position, jump_type }),
            ),
            final(self).bytes() == old(self).bytes(),
            final(self).placed() == old(self).placed(),
            final(self).next_label() == old(self).next_label(),
    {
        self.pending_jumps.push(PendingJump { label_id, patch_position, jump_type });
        proof {
            let before = old(self).pending_jumps@;
            let after = self.pending_jumps@;
            assert forall|i: int| 0 <= i < after.len() implies (#[trigger] after[i]).patch_position
                + 1 < self.bytecode@.len() by {
                if i < before.len() {
                    assert(after[i] == before[i]);
                }
            }
            assert forall|i: int, j: int| 0 <= i < j < after.len() implies (
            #[trigger] after[i]).patch_position + 1 < (#[trigger] after[j]).patch_position
                || after[j].patch_position + 1 < after[i].patch_position by {
                assert(after[i] == before[i]);
                if j < before.len() {
                    assert(after[j] == before[j]);
                } else {
                    assert(before[i] == old(self).pending()[i]);
                    assert(old(self).pending()[i].patch_position + 1 < patch_position);
                    assert(after[j].patch_position == patch_position);
                }
            }
        }
    }

    /// Emits a jump to the label, taken when `cond_reg` is zero. Where the
    /// label is placed the jump is encoded at once, forward or backward;
    /// where it is not, a forward jump with a zero operand is emitted and
    /// recorded as pending.
    pub fn jump_if_false_to_label(&mut self, cond_reg: u8, label_id: u32)
        requires
            old(self).wf(),
            old(self).bytes().len() + 4 <= 0xFFFF,
            old(self).placed().contains_key(label_id) ==> forward_reachable(
                old(self).position(),
                old(self).placed()[label_id],
            ) || backward_reachable(old(self).position(), old(self).placed()[label_id]),
        ensures
            final(self).wf(),
            old(self).sound() ==> final(self).sound(),
            final(self).placed() == old(self).placed(),
            final(self).next_label() == old(self).next_label(),
            old(self).placed().contains_key(label_id) ==> final(self).pending() == old(
                self,
            ).pending() && final(self).bytes() == old(self).bytes() + ({
                let pos = old(self).position();
                let target = old(self).placed()[label_id];
                if target > pos {
                    seq![
                        JUMP_FORWARD_IF_FALSE,
                        cond_reg,
                        low_byte(forward_offset(pos, target)),
                        high_byte(forward_offset(pos, target)),
                    ]
                } else {
                    seq![
                        JUMP_BACKWARD_IF_FALSE,
                        cond_reg,
                        low_byte(backward_offset(pos, target)),
                        high_byte(backward_offset(pos, target)),
                    ]
                }
            }),
            !old(self).placed().contains_key(label_id) ==> final(self).bytes() == old(self).bytes()
                + seq![JUMP_FORWARD_IF_FALSE, cond_reg, 0, 0] && final(self).pending() == old(
                self,
            ).pending().push(
                (PendingJump {
                    label_id,
                    patch_position: position_of_len(old(self).bytes().len() + 2),
                    jump_type: JumpType::ForwardIfFalse,
                }),
            ),
    {
        match self.label_position(label_id) {
            Some(target) => {
                let current: u16 = self.current_pos();
                if target > current {
                    self.jump_forward_if_false_to(cond_reg, target);
                } else {
                    self.jump_backward_if_false_to(cond_reg, target);
                }
            },
            None => {
                let operand: u16 = self.jump_forward_if_false(cond_reg);
                self.defer(label_id, operand, JumpType::ForwardIfFalse);
            },
        }
    }

    /// Emits a jump to the label, taken when `cond_reg` is not zero. Where
    /// the label is placed the jump is encoded at once, forward or backward;
    /// where it is not, a forward jump with a zero operand is emitted and
    /// recorded as pending.
    pub fn jump_if_true_to_label(&mut self, cond_reg: u8, label_id: u32)
        requires
            old(self).wf(),
            old(self).bytes().len() + 4 <= 0xFFFF,
            old(self).placed().contains_key(label_id) ==> forward_reachable(
                old(self).position(),
                old(self).placed()[label_id],
            ) || backward_reachable(old(self).position(), old(self).placed()[label_id]),
        ensures
            final(self).wf(),
            old(self).sound() ==> final(self).sound(),
            final(self).placed() == old(self).placed(),
            final(self).next_label() == old(self).next_label(),
            old(self).placed().contains_key(label_id) ==> final(self).pending() == old(
                self,
            ).pending() && final(self).bytes() == old(self).bytes() + ({
                let pos = old(self).position();
                let target = old(self).placed()[label_id];
                if target > pos {
                    seq![
                        JUMP_FORWARD_IF_TRUE,
                        cond_reg,
                        low_byte(forward_offset(pos, target)),
                        high_byte(forward_offset(pos, target)),
                    ]
                } else {
                    seq![
                        JUMP_BACKWARD_IF_TRUE,
                        cond_reg,
                        low_byte(backward_offset(pos, target)),
                        high_byte(backward_offset(pos, target)),
                    ]
                }
            }),
            !old(self).placed().contains_key(label_id) ==> final(self).bytes() == old(self).bytes()
                + seq![JUMP_FORWARD_IF_TRUE, cond_reg, 0, 0] && final(self).pending() == old(
                self,
            ).pending().push(
                (PendingJump {
                    label_id,
                    patch_position: position_of_len(old(self).bytes().len() + 2),
                    jump_type: JumpType::ForwardIfTrue,
                }),
            ),
    {
        match self.label_position(label_id) {
            Some(target) => {
                let current: u16 = self.current_pos();
                if target > current {
                    self.jump_forward_if_true_to(cond_reg, target);
                } else {
                    self.jump_backward_if_true_to(cond_reg, target);
                }
            },
            None => {
                let operand: u16 = self.jump_forward_if_true(cond_reg);
                self.defer(label_id, operand, JumpType::ForwardIfTrue);
            },
        }
    }

    /// Emits an unconditional jump to the label. Where the label is not yet
    /// placed, the operand is zero and the jump is recorded as pending.
    pub fn jmp_to_label(&mut self, label_id: u32)
        requires
            old(self).wf(),
            old(self).bytes().len() + 3 <= 0xFFFF,
        ensures
            final(self).wf(),
            old(self).sound() ==> final(self).sound(),
            final(self).placed() == old(self).placed(),
            final(self).next_label() == old(self).next_label(),
            old(self).placed().contains_key(label_id) ==> Self::appended(
                old(self),
                final(self),
                seq![
                    JMP,
                    low_byte(old(self).placed()[label_id]),
                    high_byte(old(self).placed()[label_id]),
                ],
            ),
            !old(self).placed().contains_key(label_id) ==> final(self).bytes() == old(self).bytes()
                + seq![JMP, 0, 0] && final(self).pending() == old(self).pending().push(
                (PendingJump {
                    label_id,
                    patch_position: position_of_len(old(self).bytes().len() + 1),
                    jump_type: JumpType::Absolute,
                }),
            ),
    {
        match self.label_position(label_id) {
            Some(target) => {
                self.jmp_to(target);
            },
            None => {
                let operand: u16 = self.jmp(0);
                self.defer(label_id, operand, JumpType::Absolute);
            },
        }
    }

    /// Whether every pending jump can be resolved: its label is placed, and
    /// for a conditional jump not before the operand.
    pub open spec fn all_resolvable(&self) -> bool {
        forall|i: int|
            0 <= i < self.pending().len() ==> resolvable(#[trigger] self.pending()[i], self.placed())
    }

    /// Writes the operand of every pending jump and returns the finished
    /// bytecode. Afterwards no jump is pending. The operand of each pending
    /// jump then holds the value that belongs to it: the position of the
    /// label for an absolute jump, the position of the label minus that of
    /// the operand for a conditional one. Every other byte is as emitted.
    pub fn build(&mut self) -> (code: Vec<u8>)
        requires
            old(self).wf(),
            old(self).all_resolvable(),
        ensures
            final(self).wf(),
            old(self).sound() ==> final(self).sound() && well_formed(code@),
            code@ == resolved(old(self).bytes(), old(self).pending(), old(self).placed()),
            code@.len() == old(self).bytes().len(),
            forall|k: int|
                #![trigger old(self).pending()[k]]
                0 <= k < old(self).pending().len() ==> word_of(
                    code@[old(self).pending()[k].patch_position as int],
                    code@[old(self).pending()[k].patch_position + 1],
                ) == patch_value(old(self).pending()[k], old(self).placed()),
            forall|at: int|
                0 <= at < code@.len() && (forall|k: int|
                    0 <= k < old(self).pending().len() ==> at != (
                    #[trigger] old(self).pending()[k]).patch_position && at
                        != old(self).pending()[k].patch_position + 1) ==> #[trigger] code@[at]
                    == old(self).bytes()[at],
            final(self).bytes() == code@,
            final(self).pending() == Seq::<PendingJump>::empty(),
            final(self).placed() == old(self).placed(),
            final(self).next_label() == old(self).next_label(),
    {
        let mut i: usize = 0;
        assert(self.pending_jumps@.skip(0) =~= self.pending_jumps@);
        proof {
            let bytes = self.bytecode@;
            let pending = self.pending_jumps@;
            let labels = self.labels@;
            assert forall|k: int| 0 <= k < pending.len() implies word_of(
                resolved(bytes, pending, labels)[pending[k].patch_position as int],
                resolved(bytes, pending, labels)[pending[k].patch_position + 1],
            ) == patch_value(#[trigger] pending[k], labels) by {
                resolved_operand_is_distance(bytes, pending, labels, k);
            }
            assert forall|at: int|
                0 <= at < bytes.len() && (forall|k: int|
                    0 <= k < pending.len() ==> at != (#[trigger] pending[k]).patch_position && at
                        != pending[k].patch_position + 1) implies #[trigger] resolved(
                bytes,
                pending,
                labels,
            )[at] == bytes[at] by {
                resolved_keeps_other_bytes(bytes, pending, labels, at);
            }
            if pending.len() == 0 {
                assert(resolved(bytes, pending, labels) == bytes);
            } else {
                resolved_operand_is_distance(bytes, pending, labels, 0);
            }
        }
        while i < self.pending_jumps.len()
            invariant
                self.wf(),
                old(self).sound() ==> self.sound(),
                i <= self.pending_jumps@.len(),
                self.pending_jumps@ == old(self).pending_jumps@,
                self.labels@ == old(self).labels@,
                self.next_label_id == old(self).next_label_id,
                self.bytecode@.len() == old(self).bytecode@.len(),
                old(self).all_resolvable(),
                forall|k: int|
                    0 <= k < self.pending_jumps@.len() ==> (#[trigger] self.pending_jumps@[k]).patch_position
                        + 1 < self.bytecode@.len(),
                resolved(old(self).bytecode@, old(self).pending_jumps@, old(self).labels@)
                    == resolved(self.bytecode@, self.pending_jumps@.skip(i as int), self.labels@),
            decreases self.pending_jumps@.len() - i,
        {
            let p: PendingJump = self.pending_jumps[i];
            assert(resolvable(old(self).pending()[i as int], old(self).placed()));
            let target: u16 = match self.label_position(p.label_id) {
                Some(t) => t,
                None => 0,
            };
            let value: u16 = match p.jump_type {
                JumpType::Absolute => target,
                _ => target - p.patch_position,
            };
            proof {
                let rest = self.pending_jumps@.skip(i as int);
                assert(rest[0] == p);
                assert(rest.skip(1) =~= self.pending_jumps@.skip(i + 1));
                assert(value == patch_value(p, self.labels@));
            }
            self.patch_target(p.patch_position, value);
            i = i + 1;
        }
        self.pending_jumps = Vec::new();
        self.bytecode.clone()
    }
}

impl Default for BytecodeBuilder {
    fn default() -> (b: Self)
        ensures
            b.wf(),
            b.sound(),
            b.bytes() == Seq::<u8>::empty(),
            b.placed() == Map::<u32, u16>::empty(),
            b.pending() == Seq::<PendingJump>::empty(),
            b.next_label() == 0,
    {
        BytecodeBuilder::new()
    }
}

} // verus!
