//! Sets of pipeline stages and of memory access kinds.

use vstd::prelude::*;

verus! {

/// A set of pipeline stages, one flag per stage.
#[derive(Clone, Copy, Debug, PartialEq, Eq, Structural)]
pub struct PipelineStages {
    pub top_of_pipe: bool,
    pub draw_indirect: bool,
    pub vertex_input: bool,
    pub vertex_shader: bool,
    pub tessellation_control_shader: bool,
    pub tessellation_evaluation_shader: bool,
    pub geometry_shader: bool,
    pub fragment_shader: bool,
    pub early_fragment_tests: bool,
    pub late_fragment_tests: bool,
    pub color_attachment_output: bool,
    pub compute_shader: bool,
    pub transfer: bool,
    pub bottom_of_pipe: bool,
    pub host: bool,
    pub all_graphics: bool,
    pub all_commands: bool,
}

impl PipelineStages {
    /// The empty set.
    pub open spec fn spec_none() -> PipelineStages {
        PipelineStages {
            top_of_pipe: false,
            draw_indirect: false,
            vertex_input: false,
            vertex_shader: false,
            tessellation_control_shader: false,
            tessellation_evaluation_shader: false,
            geometry_shader: false,
            fragment_shader: false,
            early_fragment_tests: false,
            late_fragment_tests: false,
            color_attachment_output: false,
            compute_shader: false,
            transfer: false,
            bottom_of_pipe: false,
            host: false,
            all_graphics: false,
            all_commands: false,
        }
    }

    /// The set holding exactly the stages that are in `self` or in `other`.
    pub open spec fn spec_union(self, other: PipelineStages) -> PipelineStages {
        PipelineStages {
            top_of_pipe: self.top_of_pipe || other.top_of_pipe,
            draw_indirect: self.draw_indirect || other.draw_indirect,
            vertex_input: self.vertex_input || other.vertex_input,
            vertex_shader: self.vertex_shader || other.vertex_shader,
            tessellation_control_shader: self.tessellation_control_shader
                || other.tessellation_control_shader,
            tessellation_evaluation_shader: self.tessellation_evaluation_shader
                || other.tessellation_evaluation_shader,
            geometry_shader: self.geometry_shader || other.geometry_shader,
            fragment_shader: self.fragment_shader || other.fragment_shader,
            early_fragment_tests: self.early_fragment_tests || other.early_fragment_tests,
            late_fragment_tests: self.late_fragment_tests || other.late_fragment_tests,
            color_attachment_output: self.color_attachment_output || other.color_attachment_output,
            compute_shader: self.compute_shader || other.compute_shader,
            transfer: self.transfer || other.transfer,
            bottom_of_pipe: self.bottom_of_pipe || other.bottom_of_pipe,
            host: self.host || other.host,
            all_graphics: self.all_graphics || other.all_graphics,
            all_commands: self.all_commands || other.all_commands,
        }
    }

    /// Whether every stage of `other` is in `self`.
    pub open spec fn includes(self, other: PipelineStages) -> bool {
        &&& other.top_of_pipe ==> self.top_of_pipe
        &&& other.draw_indirect ==> self.draw_indirect
        &&& other.vertex_input ==> self.vertex_input
        &&& other.vertex_shader ==> self.vertex_shader
        &&& other.tessellation_control_shader ==> self.tessellation_control_shader
        &&& other.tessellation_evaluation_shader ==> self.tessellation_evaluation_shader
        &&& other.geometry_shader ==> self.geometry_shader
        &&& other.fragment_shader ==> self.fragment_shader
        &&& other.early_fragment_tests ==> self.early_fragment_tests
        &&& other.late_fragment_tests ==> self.late_fragment_tests
        &&& other.color_attachment_output ==> self.color_attachment_output
        &&& other.compute_shader ==> self.compute_shader
        &&& other.transfer ==> self.transfer
        &&& other.bottom_of_pipe ==> self.bottom_of_pipe
        &&& other.host ==> self.host
        &&& other.all_graphics ==> self.all_graphics
        &&& other.all_commands ==> self.all_commands
    }

    /// The set holding only the top of the pipe: waiting on it waits on nothing.
    pub open spec fn spec_top_of_pipe() -> PipelineStages {
        PipelineStages { top_of_pipe: true, ..Self::spec_none() }
    }

    /// The set holding only the transfer stage.
    pub open spec fn spec_transfer() -> PipelineStages {
        PipelineStages { transfer: true, ..Self::spec_none() }
    }

    #[verifier::when_used_as_spec(spec_none)]
    pub fn none() -> (r: PipelineStages)
        ensures
            r == Self::spec_none(),
    {
        PipelineStages {
            top_of_pipe: false,
            draw_indirect: false,
            vertex_input: false,
            vertex_shader: false,
            tessellation_control_shader: false,
            tessellation_evaluation_shader: false,
            geometry_shader: false,
            fragment_shader: false,
            early_fragment_tests: false,
            late_fragment_tests: false,
            color_attachment_output: false,
            compute_shader: false,
            transfer: false,
            bottom_of_pipe: false,
            host: false,
            all_graphics: false,
            all_commands: false,
        }
    }

    #[verifier::when_used_as_spec(spec_union)]
    pub fn union(self, other: PipelineStages) -> (r: PipelineStages)
        ensures
            r == self.spec_union(other),
    {
        PipelineStages {
            top_of_pipe: self.top_of_pipe || other.top_of_pipe,
            draw_indirect: self.draw_indirect || other.draw_indirect,
            vertex_input: self.vertex_input || other.vertex_input,
            vertex_shader: self.vertex_shader || other.vertex_shader,
            tessellation_control_shader: self.tessellation_control_shader
                || other.tessellation_control_shader,
            tessellation_evaluation_shader: self.tessellation_evaluation_shader
                || other.tessellation_evaluation_shader,
            geometry_shader: self.geometry_shader || other.geometry_shader,
            fragment_shader: self.fragment_shader || other.fragment_shader,
            early_fragment_tests: self.early_fragment_tests || other.early_fragment_tests,
            late_fragment_tests: self.late_fragment_tests || other.late_fragment_tests,
            color_attachment_output: self.color_attachment_output || other.color_attachment_output,
            compute_shader: self.compute_shader || other.compute_shader,
            transfer: self.transfer || other.transfer,
            bottom_of_pipe: self.bottom_of_pipe || other.bottom_of_pipe,
            host: self.host || other.host,
            all_graphics: self.all_graphics || other.all_graphics,
            all_commands: self.all_commands || other.all_commands,
        }
    }

    #[verifier::when_used_as_spec(spec_top_of_pipe)]
    pub fn top_of_pipe() -> (r: PipelineStages)
        ensures
            r == Self::spec_top_of_pipe(),
    {
        let mut r = Self::none();
        r.top_of_pipe = true;
        r
    }

    #[verifier::when_used_as_spec(spec_transfer)]
    pub fn transfer() -> (r: PipelineStages)
        ensures
            r == Self::spec_transfer(),
    {
        let mut r = Self::none();
        r.transfer = true;
        r
    }
}


/// A set of memory access kinds, one flag per kind.
#[derive(Clone, Copy, Debug, PartialEq, Eq, Structural)]
pub struct AccessFlagBits {
    pub indirect_command_read: bool,
    pub index_read: bool,
    pub vertex_attribute_read: bool,
    pub uniform_read: bool,
    pub input_attachment_read: bool,
    pub shader_read: bool,
    pub shader_write: bool,
    pub color_attachment_read: bool,
    pub color_attachment_write: bool,
    pub depth_stencil_attachment_read: bool,
    pub depth_stencil_attachment_write: bool,
    pub transfer_read: bool,
    pub transfer_write: bool,
    pub host_read: bool,
    pub host_write: bool,
    pub memory_read: bool,
    pub memory_write: bool,
}

impl AccessFlagBits {
    /// The empty set.
    pub open spec fn spec_none() -> AccessFlagBits {
        AccessFlagBits {
            indirect_command_read: false,
            index_read: false,
            vertex_attribute_read: false,
            uniform_read: false,
            input_attachment_read: false,
            shader_read: false,
            shader_write: false,
            color_attachment_read: false,
            color_attachment_write: false,
            depth_stencil_attachment_read: false,
            depth_stencil_attachment_write: false,
            transfer_read: false,
            transfer_write: false,
            host_read: false,
            host_write: false,
            memory_read: false,
            memory_write: false,
        }
    }

    /// The set holding exactly the access kinds that are in `self` or in `other`.
    pub open spec fn spec_union(self, other: AccessFlagBits) -> AccessFlagBits {
        AccessFlagBits {
            indirect_command_read: self.indirect_command_read || other.indirect_command_read,
            index_read: self.index_read || other.index_read,
            vertex_attribute_read: self.vertex_attribute_read || other.vertex_attribute_read,
            uniform_read: self.uniform_read || other.uniform_read,
            input_attachment_read: self.input_attachment_read || other.input_attachment_read,
            shader_read: self.shader_read || other.shader_read,
            shader_write: self.shader_write || other.shader_write,
            color_attachment_read: self.color_attachment_read || other.color_attachment_read,
            color_attachment_write: self.color_attachment_write || other.color_attachment_write,
            depth_stencil_attachment_read: self.depth_stencil_attachment_read
                || other.depth_stencil_attachment_read,
            depth_stencil_attachment_write: self.depth_stencil_attachment_write
                || other.depth_stencil_attachment_write,
            transfer_read: self.transfer_read || other.transfer_read,
            transfer_write: self.transfer_write || other.transfer_write,
            host_read: self.host_read || other.host_read,
            host_write: self.host_write || other.host_write,
            memory_read: self.memory_read || other.memory_read,
            memory_write: self.memory_write || other.memory_write,
        }
    }

    /// Whether every access kind of `other` is in `self`.
    pub open spec fn includes(self, other: AccessFlagBits) -> bool {
        &&& other.indirect_command_read ==> self.indirect_command_read
        &&& other.index_read ==> self.index_read
        &&& other.vertex_attribute_read ==> self.vertex_attribute_read
        &&& other.uniform_read ==> self.uniform_read
        &&& other.input_attachment_read ==> self.input_attachment_read
        &&& other.shader_read ==> self.shader_read
        &&& other.shader_write ==> self.shader_write
        &&& other.color_attachment_read ==> self.color_attachment_read
        &&& other.color_attachment_write ==> self.color_attachment_write
        &&& other.depth_stencil_attachment_read ==> self.depth_stencil_attachment_read
        &&& other.depth_stencil_attachment_write ==> self.depth_stencil_attachment_write
        &&& other.transfer_read ==> self.transfer_read
        &&& other.transfer_write ==> self.transfer_write
        &&& other.host_read ==> self.host_read
        &&& other.host_write ==> self.host_write
        &&& other.memory_read ==> self.memory_read
        &&& other.memory_write ==> self.memory_write
    }

    /// The set holding only writes by a transfer.
    pub open spec fn spec_transfer_write() -> AccessFlagBits {
        AccessFlagBits { transfer_write: true, ..Self::spec_none() }
    }

    #[verifier::when_used_as_spec(spec_none)]
    pub fn none() -> (r: AccessFlagBits)
        ensures
            r == Self::spec_none(),
    {
        AccessFlagBits {
            indirect_command_read: false,
            index_read: false,
            vertex_attribute_read: false,
            uniform_read: false,
            input_attachment_read: false,
            shader_read: false,
            shader_write: false,
            color_attachment_read: false,
            color_attachment_write: false,
            depth_stencil_attachment_read: false,
            depth_stencil_attachment_write: false,
            transfer_read: false,
            transfer_write: false,
            host_read: false,
            host_write: false,
            memory_read: false,
            memory_write: false,
        }
    }

    #[verifier::when_used_as_spec(spec_union)]
    pub fn union(self, other: AccessFlagBits) -> (r: AccessFlagBits)
        ensures
            r == self.spec_union(other),
    {
        AccessFlagBits {
            indirect_command_read: self.indirect_command_read || other.indirect_command_read,
            index_read: self.index_read || other.index_read,
            vertex_attribute_read: self.vertex_attribute_read || other.vertex_attribute_read,
            uniform_read: self.uniform_read || other.uniform_read,
            input_attachment_read: self.input_attachment_read || other.input_attachment_read,
            shader_read: self.shader_read || other.shader_read,
            shader_write: self.shader_write || other.shader_write,
            color_attachment_read: self.color_attachment_read || other.color_attachment_read,
            color_attachment_write: self.color_attachment_write || other.color_attachment_write,
            depth_stencil_attachment_read: self.depth_stencil_attachment_read
                || other.depth_stencil_attachment_read,
            depth_stencil_attachment_write: self.depth_stencil_attachment_write
                || other.depth_stencil_attachment_write,
            transfer_read: self.transfer_read || other.transfer_read,
            transfer_write: self.transfer_write || other.transfer_write,
            host_read: self.host_read || other.host_read,
            host_write: self.host_write || other.host_write,
            memory_read: self.memory_read || other.memory_read,
            memory_write: self.memory_write || other.memory_write,
        }
    }

    #[verifier::when_used_as_spec(spec_transfer_write)]
    pub fn transfer_write() -> (r: AccessFlagBits)
        ensures
            r == Self::spec_transfer_write(),
    {
        let mut r = Self::none();
        r.transfer_write = true;
        r
    }
}

/// Uniting with the empty set changes nothing.
pub proof fn lemma_stages_union_none(stages: PipelineStages)
    ensures
        PipelineStages::spec_none().spec_union(stages) == stages,
        stages.spec_union(PipelineStages::spec_none()) == stages,
{
}

/// Uniting with the empty set changes nothing.
pub proof fn lemma_access_union_none(access: AccessFlagBits)
    ensures
        AccessFlagBits::spec_none().spec_union(access) == access,
        access.spec_union(AccessFlagBits::spec_none()) == access,
{
}

/// Union does not depend on the order or the grouping of the sets, and a set
/// united with itself is that set.
pub proof fn lemma_stages_union(a: PipelineStages, b: PipelineStages, c: PipelineStages)
    ensures
        a.spec_union(b) == b.spec_union(a),
        a.spec_union(b).spec_union(c) == a.spec_union(b.spec_union(c)),
        a.spec_union(a) == a,
{
}

/// Union does not depend on the order or the grouping of the sets, and a set
/// united with itself is that set.
pub proof fn lemma_access_union(a: AccessFlagBits, b: AccessFlagBits, c: AccessFlagBits)
    ensures
        a.spec_union(b) == b.spec_union(a),
        a.spec_union(b).spec_union(c) == a.spec_union(b.spec_union(c)),
        a.spec_union(a) == a,
{
}

/// A union includes both of its parts, and whatever one of the parts includes.
pub proof fn lemma_stages_union_includes(a: PipelineStages, b: PipelineStages, c: PipelineStages)
    ensures
        a.spec_union(b).includes(a),
        a.spec_union(b).includes(b),
        a.includes(c) ==> a.spec_union(b).includes(c),
{
}

/// A union includes both of its parts, and whatever one of the parts includes.
pub proof fn lemma_access_union_includes(a: AccessFlagBits, b: AccessFlagBits, c: AccessFlagBits)
    ensures
        a.spec_union(b).includes(a),
        a.spec_union(b).includes(b),
        a.includes(c) ==> a.spec_union(b).includes(c),
{
}

} // verus!
