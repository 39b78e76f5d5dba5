//! What the mesh painter hands to the device each frame: which objects to draw,
//! and where each one's vertices and indices lie in the frame's buffers.

use vstd::prelude::*;
use vstd::bytes::{spec_u32_to_le_bytes, u32_to_le_bytes};
use crate::buffer::Buffer;
use crate::command::{ClearValue, GpuCommand, GpuRenderPassCommand, RenderOutput};
use crate::image::{Image2d, ImageAccess};

verus! {

/// How many samples a texture lookup takes.
#[derive(Debug, Clone, Copy, PartialEq, Eq, Hash, Structural)]
pub enum SamplingMode {
    X1,
    X4,
}

/// The name of a mesh that was added to the painter.
#[derive(Debug, Clone, Copy, PartialEq, Eq, Hash, Structural)]
pub struct MeshID {
    pub key: u64,
}

/// The name of a texture that was added to the painter.
#[derive(Debug, Clone, Copy, PartialEq, Eq, Hash, Structural)]
pub struct TextureID {
    pub key: u64,
}

/// A mesh to draw, and the texture to draw it with.
#[derive(Debug, Clone, Copy, PartialEq, Eq, Structural)]
pub struct DrawableMeshAndTexture {
    pub mesh_name: MeshID,
    pub texture_name: TextureID,
}

/// What a shader is told of one drawn object.
#[derive(Debug, Clone, Copy, PartialEq, Eq, Structural)]
pub struct GpuObjectInfo {
    pub obj_id: u32,
    pub mesh_id: u32,
    pub texture_id: u32,
}

/// Where one object's vertices and indices lie in the frame's buffers.
#[derive(Debug, Clone, Copy, PartialEq, Eq, Structural)]
pub struct ObjDrawParams {
    pub vert_offset: i32,
    pub idx_offset: u32,
    pub idx_count: u32,
    pub obj_info: GpuObjectInfo,
}

/// What a shader is told of one object: its sampler and its texture.
#[derive(Debug, Clone, Copy, PartialEq, Eq, Structural)]
pub struct ObjectInfo {
    pub sampler_id: u32,
    pub texture_id: u32,
}

/// The indices of the two triangles of a square whose corners are numbered
/// counter-clockwise from 0.
pub fn square_indices() -> (indices: Vec<u32>)
    ensures
        indices@ == seq![0u32, 1u32, 2u32, 2u32, 3u32, 0u32],
{
    let mut indices: Vec<u32> = Vec::new();
    indices.push(0);
    indices.push(1);
    indices.push(2);
    indices.push(2);
    indices.push(3);
    indices.push(0);
    assert(indices@ =~= seq![0u32, 1u32, 2u32, 2u32, 3u32, 0u32]);
    indices
}

/// A mesh to lay out in a frame's buffers: how many vertices it has, its indices
/// into them, and the place of its texture among the textures.
#[derive(Debug, Clone, Copy, PartialEq, Eq)]
pub struct DrawSource<'a> {
    pub vertex_count: usize,
    pub indices: &'a [u32],
    pub texture_index: usize,
}

/// What a frame's buffers hold of the meshes: the indices of all meshes on end,
/// each mesh's indices raised by the place of its first vertex, and for each mesh
/// where its vertices and indices lie.
#[derive(Debug, Clone, PartialEq, Eq)]
pub struct FrameInputs {
    pub index_data: Vec<u32>,
    pub draw_params: Vec<ObjDrawParams>,
}

/// The number of vertices of the meshes.
pub open spec fn vertex_total(sources: Seq<DrawSource>) -> int
    decreases sources.len(),
{
    if sources.len() == 0 {
        0
    } else {
        vertex_total(sources.drop_last()) + sources.last().vertex_count
    }
}

/// The number of indices of the meshes.
pub open spec fn index_total(sources: Seq<DrawSource>) -> int
    decreases sources.len(),
{
    if sources.len() == 0 {
        0
    } else {
        index_total(sources.drop_last()) + sources.last().indices@.len()
    }
}

/// A mesh's indices, each raised by `by`.
pub open spec fn raised(indices: Seq<u32>, by: int) -> Seq<int> {
    Seq::new(indices.len(), |i: int| indices[i] + by)
}

/// The indices of the meshes on end, each mesh's raised by the number of vertices
/// before its own.
pub open spec fn index_data(sources: Seq<DrawSource>) -> Seq<int>
    decreases sources.len(),
{
    if sources.len() == 0 {
        Seq::empty()
    } else {
        index_data(sources.drop_last()) + raised(
            sources.last().indices@,
            vertex_total(sources.drop_last()),
        )
    }
}

/// Where the mesh at `place` lies in the buffers, and what the shader is told of
/// it: objects and meshes are numbered in order.
pub open spec fn draw_params_at(sources: Seq<DrawSource>, place: int) -> ObjDrawParams {
    ObjDrawParams {
        vert_offset: vertex_total(sources.take(place)) as i32,
        idx_offset: index_total(sources.take(place)) as u32,
        idx_count: sources[place].indices@.len() as u32,
        obj_info: GpuObjectInfo {
            obj_id: place as u32,
            mesh_id: place as u32,
            texture_id: sources[place].texture_index as u32,
        },
    }
}

/// Whether the meshes can be laid out: the device counts vertices with signed 32
/// bits, and indices, objects and textures with unsigned 32 bits.
pub open spec fn fits_frame(sources: Seq<DrawSource>) -> bool {
    &&& vertex_total(sources) <= i32::MAX
    &&& index_total(sources) <= u32::MAX
    &&& sources.len() <= u32::MAX
    &&& forall|k: int| 0 <= k < sources.len() ==> (#[trigger] sources[k]).texture_index <= u32::MAX
    &&& forall|p: int| 0 <= p < index_data(sources).len() ==> #[trigger] index_data(sources)[p]
        <= u32::MAX
}

proof fn lemma_totals_grow(sources: Seq<DrawSource>, n: int)
    requires
        0 <= n <= sources.len(),
    ensures
        0 <= vertex_total(sources.take(n)) <= vertex_total(sources),
        0 <= index_total(sources.take(n)) <= index_total(sources),
        index_data(sources.take(n)).len() == index_total(sources.take(n)),
        index_data(sources).len() == index_total(sources),
        index_data(sources).take(index_total(sources.take(n))) == index_data(sources.take(n)),
    decreases sources.len() - n,
{
    lemma_index_data_len(sources);
    lemma_index_data_len(sources.take(n));
    lemma_totals_positive(sources.take(n));
    if n == sources.len() {
        assert(sources.take(n) =~= sources);
        assert(index_data(sources).take(index_total(sources)) =~= index_data(sources));
    } else {
        let shorter = sources.drop_last();
        assert(shorter.take(n) =~= sources.take(n));
        lemma_totals_grow(shorter, n);
        lemma_index_data_len(shorter);
        assert(index_data(sources).take(index_total(sources.take(n))) =~= index_data(
            shorter,
        ).take(index_total(sources.take(n))));
    }
}

proof fn lemma_totals_positive(sources: Seq<DrawSource>)
    ensures
        0 <= vertex_total(sources),
        0 <= index_total(sources),
    decreases sources.len(),
{
    if sources.len() > 0 {
        lemma_totals_positive(sources.drop_last());
    }
}

proof fn lemma_index_data_len(sources: Seq<DrawSource>)
    ensures
        index_data(sources).len() == index_total(sources),
    decreases sources.len(),
{
    if sources.len() > 0 {
        lemma_index_data_len(sources.drop_last());
    }
}

/// Lays the meshes out in a frame's buffers, in order. `None` where there is more
/// than the device can count.
pub fn update_inputs(sources: &[DrawSource]) -> (inputs: Option<FrameInputs>)
    ensures
        inputs is Some <==> fits_frame(sources@),
        inputs is Some ==> {
            &&& inputs->0.index_data@.len() == index_data(sources@).len()
            &&& forall|p: int|
                0 <= p < inputs->0.index_data@.len() ==> #[trigger] inputs->0.index_data@[p]
                    == index_data(sources@)[p]
            &&& inputs->0.draw_params@ == Seq::new(
                sources@.len(),
                |k: int| draw_params_at(sources@, k),
            )
        },
{
    let mut index_buffer: Vec<u32> = Vec::new();
    let mut draw_params: Vec<ObjDrawParams> = Vec::new();
    let mut vb_offset: i32 = 0;
    let mut ib_offset: u32 = 0;
    let mut k: usize = 0;
    while k < sources.len()
        invariant
            k <= sources.len(),
            k <= u32::MAX,
            vb_offset == vertex_total(sources@.take(k as int)),
            ib_offset == index_total(sources@.take(k as int)),
            forall|j: int| 0 <= j < k ==> (#[trigger] sources@[j]).texture_index <= u32::MAX,
            index_buffer@.len() == index_data(sources@.take(k as int)).len(),
            forall|p: int|
                0 <= p < index_buffer@.len() ==> #[trigger] index_buffer@[p] == index_data(
                    sources@.take(k as int),
                )[p],
            draw_params@ == Seq::new(k as nat, |j: int| draw_params_at(sources@, j)),
        decreases sources.len() - k,
    {
        let source = &sources[k];
        let ghost before = sources@.take(k as int);
        let ghost next = sources@.take(k + 1);
        proof {
            assert(next.drop_last() =~= before);
            assert(next.last() == sources@[k as int]);
            lemma_totals_grow(sources@, k + 1);
            lemma_totals_grow(sources@, k as int);
            lemma_index_data_len(before);
            lemma_index_data_len(next);
        }
        if k >= u32::MAX as usize || source.texture_index > u32::MAX as usize
            || source.vertex_count > (i32::MAX - vb_offset) as usize || source.indices.len() > (
        u32::MAX - ib_offset) as usize {
            proof {
                if k >= u32::MAX {
                } else if source.texture_index > u32::MAX {
                    assert(sources@[k as int].texture_index > u32::MAX);
                } else {
                }
            }
            return None;
        }
        let mut i: usize = 0;
        let ghost head = index_buffer@;
        while i < source.indices.len()
            invariant
                i <= source.indices.len(),
                0 <= vb_offset,
                k < sources.len(),
                *source == sources@[k as int],
                before == sources@.take(k as int),
                next == sources@.take(k + 1),
                next.drop_last() == before,
                next.last() == sources@[k as int],
                vb_offset == vertex_total(before),
                head.len() == index_data(before).len(),
                index_data(sources@).take(index_total(next)) == index_data(next),
                index_data(next).len() == index_total(next),
                index_data(before).len() == index_total(before),
                index_total(next) == index_total(before) + source.indices@.len(),
                index_total(next) <= index_data(sources@).len(),
                index_buffer@.len() == head.len() + i,
                forall|p: int| 0 <= p < head.len() ==> #[trigger] index_buffer@[p] == head[p],
                forall|p: int|
                    0 <= p < i ==> (#[trigger] index_buffer@[head.len() + p]) == source.indices@[p]
                        + vb_offset,
            decreases source.indices.len() - i,
        {
            let index = source.indices[i];
            if index > u32::MAX - vb_offset as u32 {
                proof {
                    let place = head.len() + i;
                    assert(index_data(next)[place] == source.indices@[i as int] + vb_offset);
                    assert(index_data(sources@).take(index_total(next))[place] == index_data(
                        sources@,
                    )[place]);
                    assert(index_data(sources@)[place] > u32::MAX);
                }
                return None;
            }
            index_buffer.push(index + vb_offset as u32);
            i += 1;
        }
        proof {
            assert forall|p: int| 0 <= p < index_buffer@.len() implies #[trigger] index_buffer@[p]
                == index_data(next)[p] by {
                if p >= head.len() {
                    assert(index_buffer@[head.len() + (p - head.len())] == source.indices@[p
                        - head.len()] + vb_offset);
                }
            }
        }
        draw_params.push(
            ObjDrawParams {
                vert_offset: vb_offset,
                idx_offset: ib_offset,
                idx_count: source.indices.len() as u32,
                obj_info: GpuObjectInfo {
                    obj_id: k as u32,
                    mesh_id: k as u32,
                    texture_id: source.texture_index as u32,
                },
            },
        );
        vb_offset = vb_offset + source.vertex_count as i32;
        ib_offset = ib_offset + source.indices.len() as u32;
        k += 1;
        assert(draw_params@ =~= Seq::new(k as nat, |j: int| draw_params_at(sources@, j)));
    }
    assert(sources@.take(k as int) =~= sources@);
    assert forall|p: int| 0 <= p < index_data(sources@).len() implies #[trigger] index_data(
        sources@,
    )[p] <= u32::MAX by {
        assert(index_buffer@[p] == index_data(sources@)[p]);
    }
    Some(FrameInputs { index_data: index_buffer, draw_params })
}

/// The bits of the number one as a 32-bit float.
pub const FLOAT_ONE_BITS: u32 = 0x3f80_0000;

impl GpuObjectInfo {
    /// What the shader reads of the object: the three numbers, each as four bytes,
    /// lowest first.
    pub open spec fn spec_push_constant(self) -> Seq<u8> {
        spec_u32_to_le_bytes(self.obj_id) + spec_u32_to_le_bytes(self.mesh_id)
            + spec_u32_to_le_bytes(self.texture_id)
    }

    pub fn push_constant(&self) -> (data: Vec<u8>)
        ensures
            data@ == self.spec_push_constant(),
            data@.len() == 12,
    {
        let mut data = u32_to_le_bytes(self.obj_id);
        let mut mesh = u32_to_le_bytes(self.mesh_id);
        let mut texture = u32_to_le_bytes(self.texture_id);
        data.append(&mut mesh);
        data.append(&mut texture);
        data
    }
}

/// What one frame slot holds: its descriptor sets, its buffers, the images it
/// draws to, and where the objects of the next draw lie in the buffers.
#[derive(Debug, Clone, PartialEq, Eq)]
pub struct PerFrameData {
    pub descriptor_sets: Vec<u64>,
    pub vertex_buffer: Buffer,
    pub index_buffer: Buffer,
    pub index_buffer_size: u32,
    pub scene_buffer: Buffer,
    pub color_image: Image2d,
    pub depth_image: Image2d,
    pub render_output: RenderOutput,
    pub next_draw_params: Vec<ObjDrawParams>,
}

/// The commands of the render pass that draws the objects: pipeline, buffers and
/// shader inputs are bound once; then each object's numbers are pushed and the
/// object is drawn.
pub open spec fn draw_commands_match(
    commands: Seq<GpuRenderPassCommand>,
    frame: PerFrameData,
) -> bool {
    &&& commands.len() == 4 + 2 * frame.next_draw_params@.len()
    &&& commands[0] == GpuRenderPassCommand::BindPipeline { pipeline: 0 }
    &&& commands[1] matches GpuRenderPassCommand::BindVertexBuffers { buffers }
    &&& buffers@ == seq![&frame.vertex_buffer]
    &&& commands[2] == GpuRenderPassCommand::BindIndexBuffer { buffer: &frame.index_buffer }
    &&& commands[3] matches GpuRenderPassCommand::BindShaderInput {
        pipeline_layout,
        descriptor_sets,
    }
    &&& pipeline_layout == 0
    &&& descriptor_sets@ == frame.descriptor_sets@
    &&& forall|k: int|
        0 <= k < frame.next_draw_params@.len() ==> {
            &&& (#[trigger] commands[4 + 2 * k]) matches GpuRenderPassCommand::SetPushConstant {
                pipeline_layout,
                data,
            }
            &&& pipeline_layout == 0
            &&& data@ == frame.next_draw_params@[k].obj_info.spec_push_constant()
            &&& commands[4 + 2 * k + 1] == GpuRenderPassCommand::Draw {
                count: frame.next_draw_params@[k].idx_count,
                vertex_offset: frame.next_draw_params@[k].vert_offset,
                index_offset: frame.next_draw_params@[k].idx_offset,
            }
        }
}

/// What the render pass clears its attachments to: the colour to opaque yellow,
/// the depth to one and the stencil to zero.
pub open spec fn draw_clear_values() -> Seq<ClearValue> {
    seq![
        ClearValue { words: [FLOAT_ONE_BITS, FLOAT_ONE_BITS, 0, FLOAT_ONE_BITS] },
        ClearValue { words: [FLOAT_ONE_BITS, 0, 0, 0] },
    ]
}

fn copy_handles(handles: &Vec<u64>) -> (copy: Vec<u64>)
    ensures
        copy@ == handles@,
{
    let mut copy: Vec<u64> = Vec::new();
    let mut i: usize = 0;
    while i < handles.len()
        invariant
            i <= handles.len(),
            copy@ == handles@.take(i as int),
        decreases handles.len() - i,
    {
        copy.push(handles[i]);
        i += 1;
        assert(copy@ =~= handles@.take(i as int));
    }
    assert(handles@.take(i as int) =~= handles@);
    copy
}

/// The slot after the meshes were laid out for it: it holds where each object
/// lies and how many indices there are, and is otherwise as before.
pub open spec fn frame_laid_out(
    before: PerFrameData,
    after: PerFrameData,
    sources: Seq<DrawSource>,
) -> bool {
    &&& after.next_draw_params@ == Seq::new(sources.len(), |k: int| draw_params_at(sources, k))
    &&& after.index_buffer_size == index_data(sources).len()
    &&& after.descriptor_sets == before.descriptor_sets
    &&& after.vertex_buffer == before.vertex_buffer
    &&& after.index_buffer == before.index_buffer
    &&& after.scene_buffer == before.scene_buffer
    &&& after.color_image == before.color_image
    &&& after.depth_image == before.depth_image
    &&& after.render_output == before.render_output
}

/// The mesh painter's side of a frame: its pipeline, and the slots that the
/// frames rotate through.
#[derive(Debug, Clone, PartialEq, Eq)]
pub struct MeshPainter {
    pub pipeline: u64,
    pub pipeline_layout: u64,
    pub render_pass: u64,
    pub per_frame_datas: Vec<PerFrameData>,
}

impl MeshPainter {
    /// The slot of a frame: frames rotate through the slots.
    pub open spec fn slot(self, frame_number: usize) -> int {
        frame_number as int % self.per_frame_datas@.len() as int
    }

    /// The image that the frame's objects are drawn to. `None` where the painter
    /// has no slots.
    pub fn get_rendered_image(&self, frame_number: usize) -> (image: Option<&Image2d>)
        ensures
            self.per_frame_datas@.len() == 0 <==> image is None,
            image is Some ==> *image->0 == self.per_frame_datas@[self.slot(frame_number)].color_image,
    {
        if self.per_frame_datas.len() == 0 {
            None
        } else {
            Some(&self.per_frame_datas[frame_number % self.per_frame_datas.len()].color_image)
        }
    }

    /// Lays the meshes out for the frame and notes in the frame's slot where each
    /// object lies. The result is the index data, for the caller to write to the
    /// slot's index buffer. `None`, and nothing noted, where the painter has no
    /// slots or there is more than the device can count.
    pub fn update_inputs(&mut self, frame_number: usize, sources: &[DrawSource]) -> (indices:
        Option<Vec<u32>>)
        ensures
            final(self).per_frame_datas@.len() == old(self).per_frame_datas@.len(),
            final(self).pipeline == old(self).pipeline,
            final(self).pipeline_layout == old(self).pipeline_layout,
            final(self).render_pass == old(self).render_pass,
            indices is Some <==> old(self).per_frame_datas@.len() > 0 && fits_frame(sources@),
            indices is None ==> final(self).per_frame_datas@ == old(self).per_frame_datas@,
            indices is Some ==> {
                let slot = old(self).slot(frame_number);
                let before = old(self).per_frame_datas@;
                let after = final(self).per_frame_datas@;
                &&& indices->0@.len() == index_data(sources@).len()
                &&& forall|p: int|
                    0 <= p < indices->0@.len() ==> #[trigger] indices->0@[p] == index_data(
                        sources@,
                    )[p]
                &&& forall|s: int| 0 <= s < before.len() && s != slot ==> after[s] == before[s]
                &&& frame_laid_out(before[slot], after[slot], sources@)
            },
    {
        if self.per_frame_datas.len() == 0 {
            return None;
        }
        match update_inputs(sources) {
            None => None,
            Some(inputs) => {
                let slot = frame_number % self.per_frame_datas.len();
                proof {
                    lemma_index_data_len(sources@);
                    lemma_totals_positive(sources@);
                }
                self.per_frame_datas[slot].index_buffer_size = inputs.index_data.len() as u32;
                self.per_frame_datas[slot].next_draw_params = inputs.draw_params;
                Some(inputs.index_data)
            },
        }
    }

    /// The command that draws the frame's objects, as they were last laid out, to
    /// the frame's output. `None` where the painter has no slots.
    pub fn draw_meshes_command<'a>(&'a self, frame_number: usize) -> (command: Option<
        GpuCommand<'a>,
    >)
        ensures
            self.per_frame_datas@.len() == 0 <==> command is None,
            command is Some ==> {
                let frame = self.per_frame_datas@[self.slot(frame_number)];
                &&& command->0 matches GpuCommand::RunRenderPass {
                    render_pass,
                    render_output,
                    clear_values,
                    pipelines,
                    pipeline_layouts,
                    commands,
                }
                &&& render_pass == self.render_pass
                &&& *render_output == frame.render_output
                &&& clear_values@ == draw_clear_values()
                &&& pipelines@ == seq![self.pipeline]
                &&& pipeline_layouts@ == seq![self.pipeline_layout]
                &&& draw_commands_match(commands@, frame)
            },
    {
        if self.per_frame_datas.len() == 0 {
            return None;
        }
        let frame = &self.per_frame_datas[frame_number % self.per_frame_datas.len()];
        let mut commands: Vec<GpuRenderPassCommand<'a>> = Vec::new();
        commands.push(GpuRenderPassCommand::BindPipeline { pipeline: 0 });
        let mut vertex_buffers: Vec<&'a Buffer> = Vec::new();
        vertex_buffers.push(&frame.vertex_buffer);
        assert(vertex_buffers@ =~= seq![&frame.vertex_buffer]);
        commands.push(GpuRenderPassCommand::BindVertexBuffers { buffers: vertex_buffers });
        commands.push(GpuRenderPassCommand::BindIndexBuffer { buffer: &frame.index_buffer });
        commands.push(
            GpuRenderPassCommand::BindShaderInput {
                pipeline_layout: 0,
                descriptor_sets: copy_handles(&frame.descriptor_sets),
            },
        );
        let ghost head = commands@;
        assert(head[0] == GpuRenderPassCommand::BindPipeline { pipeline: 0 });
        assert(head[1] matches GpuRenderPassCommand::BindVertexBuffers { buffers } && buffers@
            == seq![&frame.vertex_buffer]);
        assert(head[2] == GpuRenderPassCommand::BindIndexBuffer { buffer: &frame.index_buffer });
        assert(head[3] matches GpuRenderPassCommand::BindShaderInput {
            pipeline_layout,
            descriptor_sets,
        } && pipeline_layout == 0 && descriptor_sets@ == frame.descriptor_sets@);
        let mut k: usize = 0;
        while k < frame.next_draw_params.len()
            invariant
                k <= frame.next_draw_params.len(),
                head.len() == 4,
                commands@.len() == 4 + 2 * k,
                forall|p: int| 0 <= p < 4 ==> commands@[p] == head[p],
                forall|j: int|
                    0 <= j < k ==> {
                        &&& (#[trigger] commands@[4 + 2 * j]) matches GpuRenderPassCommand::SetPushConstant {
                            pipeline_layout,
                            data,
                        }
                        &&& pipeline_layout == 0
                        &&& data@ == frame.next_draw_params@[j].obj_info.spec_push_constant()
                        &&& commands@[4 + 2 * j + 1] == GpuRenderPassCommand::Draw {
                            count: frame.next_draw_params@[j].idx_count,
                            vertex_offset: frame.next_draw_params@[j].vert_offset,
                            index_offset: frame.next_draw_params@[j].idx_offset,
                        }
                    },
            decreases frame.next_draw_params.len() - k,
        {
            let params = &frame.next_draw_params[k];
            let ghost before = commands@;
            commands.push(
                GpuRenderPassCommand::SetPushConstant {
                    pipeline_layout: 0,
                    data: params.obj_info.push_constant(),
                },
            );
            commands.push(
                GpuRenderPassCommand::Draw {
                    count: params.idx_count,
                    vertex_offset: params.vert_offset,
                    index_offset: params.idx_offset,
                },
            );
            proof {
                assert forall|j: int| 0 <= j < k + 1 implies {
                    &&& (#[trigger] commands@[4 + 2 * j]) matches GpuRenderPassCommand::SetPushConstant {
                        pipeline_layout,
                        data,
                    }
                    &&& pipeline_layout == 0
                    &&& data@ == frame.next_draw_params@[j].obj_info.spec_push_constant()
                    &&& commands@[4 + 2 * j + 1] == GpuRenderPassCommand::Draw {
                        count: frame.next_draw_params@[j].idx_count,
                        vertex_offset: frame.next_draw_params@[j].vert_offset,
                        index_offset: frame.next_draw_params@[j].idx_offset,
                    }
                } by {
                    if j < k {
                        assert(commands@[4 + 2 * j] == before[4 + 2 * j]);
                        assert(commands@[4 + 2 * j + 1] == before[4 + 2 * j + 1]);
                    }
                }
            }
            k += 1;
        }
        assert(commands@[0] == head[0]);
        assert(commands@[1] == head[1]);
        assert(commands@[2] == head[2]);
        assert(commands@[3] == head[3]);
        assert(draw_commands_match(commands@, *frame));
        let mut clear_values: Vec<ClearValue> = Vec::new();
        clear_values.push(
            ClearValue { words: [FLOAT_ONE_BITS, FLOAT_ONE_BITS, 0, FLOAT_ONE_BITS] },
        );
        clear_values.push(ClearValue { words: [FLOAT_ONE_BITS, 0, 0, 0] });
        assert(clear_values@ =~= draw_clear_values());
        let mut pipelines: Vec<u64> = Vec::new();
        pipelines.push(self.pipeline);
        assert(pipelines@ =~= seq![self.pipeline]);
        let mut pipeline_layouts: Vec<u64> = Vec::new();
        pipeline_layouts.push(self.pipeline_layout);
        assert(pipeline_layouts@ =~= seq![self.pipeline_layout]);
        Some(
            GpuCommand::RunRenderPass {
                render_pass: self.render_pass,
                render_output: &frame.render_output,
                clear_values,
                pipelines,
                pipeline_layouts,
                commands,
            },
        )
    }
}

impl PerFrameData {
    /// The commands that put the slot's new images in the states that a frame
    /// expects them in: the colour image read by transfers, the depth image
    /// attached.
    pub fn initial_commands<'a>(color_image: &'a Image2d, depth_image: &'a Image2d) -> (commands:
        Vec<GpuCommand<'a>>)
        ensures
            commands@ == seq![
                GpuCommand::ImageAccessInit {
                    image: color_image,
                    access: ImageAccess::TransferRead,
                },
                GpuCommand::ImageAccessInit {
                    image: depth_image,
                    access: ImageAccess::PipelineAttachment,
                },
            ],
    {
        let mut commands: Vec<GpuCommand<'a>> = Vec::new();
        commands.push(
            GpuCommand::ImageAccessInit { image: color_image, access: ImageAccess::TransferRead },
        );
        commands.push(
            GpuCommand::ImageAccessInit {
                image: depth_image,
                access: ImageAccess::PipelineAttachment,
            },
        );
        assert(commands@ =~= seq![
            GpuCommand::ImageAccessInit { image: color_image, access: ImageAccess::TransferRead },
            GpuCommand::ImageAccessInit {
                image: depth_image,
                access: ImageAccess::PipelineAttachment,
            },
        ]);
        commands
    }
}

/// The commands that fill a new texture from a staging buffer and leave it to be
/// read by shaders.
pub fn texture_upload_commands<'a>(stage_buffer: &'a Buffer, image: &'a Image2d) -> (commands: Vec<
    GpuCommand<'a>,
>)
    ensures
        commands@ == seq![
            GpuCommand::ImageAccessInit { image, access: ImageAccess::TransferWrite },
            GpuCommand::CopyBufferToImageComplete { buffer: stage_buffer, image },
            GpuCommand::ImageAccessHint { image, access: ImageAccess::ShaderRead },
        ],
{
    let mut commands: Vec<GpuCommand<'a>> = Vec::new();
    commands.push(GpuCommand::ImageAccessInit { image, access: ImageAccess::TransferWrite });
    commands.push(GpuCommand::CopyBufferToImageComplete { buffer: stage_buffer, image });
    commands.push(GpuCommand::ImageAccessHint { image, access: ImageAccess::ShaderRead });
    assert(commands@ =~= seq![
        GpuCommand::ImageAccessInit { image, access: ImageAccess::TransferWrite },
        GpuCommand::CopyBufferToImageComplete { buffer: stage_buffer, image },
        GpuCommand::ImageAccessHint { image, access: ImageAccess::ShaderRead },
    ]);
    commands
}

/// The commands of one frame: the objects are drawn to the rendered image, which
/// is then copied onto the sheet, and the sheet is left to be presented. The
/// rendered image is left as transfers read it, which is how the next frame
/// expects it.
pub fn frame_commands<'a>(
    rendered_image: &'a Image2d,
    draw: GpuCommand<'a>,
    sheet: &'a Image2d,
) -> (commands: Vec<GpuCommand<'a>>)
    ensures
        commands@ == seq![
            GpuCommand::ImageAccessHint { image: rendered_image, access: ImageAccess::TransferRead },
            GpuCommand::ImageAccessHint {
                image: rendered_image,
                access: ImageAccess::PipelineAttachment,
            },
            draw,
            GpuCommand::ImageAccessHint { image: sheet, access: ImageAccess::Present },
            GpuCommand::BlitFullImage { src: rendered_image, dst: sheet },
            GpuCommand::ImageAccessHint { image: sheet, access: ImageAccess::Present },
        ],
{
    let ghost expected = seq![
        GpuCommand::ImageAccessHint { image: rendered_image, access: ImageAccess::TransferRead },
        GpuCommand::ImageAccessHint {
            image: rendered_image,
            access: ImageAccess::PipelineAttachment,
        },
        draw,
        GpuCommand::ImageAccessHint { image: sheet, access: ImageAccess::Present },
        GpuCommand::BlitFullImage { src: rendered_image, dst: sheet },
        GpuCommand::ImageAccessHint { image: sheet, access: ImageAccess::Present },
    ];
    let mut commands: Vec<GpuCommand<'a>> = Vec::new();
    commands.push(
        GpuCommand::ImageAccessHint { image: rendered_image, access: ImageAccess::TransferRead },
    );
    commands.push(
        GpuCommand::ImageAccessHint {
            image: rendered_image,
            access: ImageAccess::PipelineAttachment,
        },
    );
    commands.push(draw);
    commands.push(GpuCommand::ImageAccessHint { image: sheet, access: ImageAccess::Present });
    commands.push(GpuCommand::BlitFullImage { src: rendered_image, dst: sheet });
    commands.push(GpuCommand::ImageAccessHint { image: sheet, access: ImageAccess::Present });
    assert(commands@ =~= expected);
    commands
}

} // verus!
