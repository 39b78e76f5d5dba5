//! The command recorder: from a declarative command list to the device's command
//! stream, with the barriers that move each image from one access state to the
//! next.
//!
//! The recorder walks the list twice. The first walk gathers, for each image that
//! the list mentions, its track: the states that the image goes through, each with
//! the position in the list at which it is due. The second walk emits, before each
//! command, a barrier for every image that has a state due there, and then the
//! command itself.

use vstd::prelude::*;
use crate::command::{DeviceCommand, GpuCommand, ImageTransitionInfo, PassCommandError};
use crate::image::{Image2d, ImageAccess, spec_is_format_depth, is_format_depth};
use crate::image_index::{ImageIndex, index_entries, index_get, index_insert, index_new};
use crate::painter::Painter;
use crate::vulkan;

verus! {

/// The track after one more declared state. A declared starting state opens the
/// track, and only an empty one; a needed state is added unless the track already
/// ends in it. A state needed by the command at `command_idx` is due at
/// `command_idx + 1`, a starting state at `command_idx`.
pub open spec fn track_push(
    track: Seq<(usize, ImageAccess)>,
    command_idx: usize,
    transition: ImageTransitionInfo,
) -> Seq<(usize, ImageAccess)> {
    let started = match transition.old_access {
        Some(old) => if track.len() == 0 {
            track.push((command_idx, old))
        } else {
            track
        },
        None => track,
    };
    match transition.new_access {
        Some(new) => if started.len() > 0 && started.last().1 == new {
            started
        } else {
            started.push(((command_idx + 1) as usize, new))
        },
        None => started,
    }
}

/// The track of `image` after those of the given transitions that are about it.
pub open spec fn track_in_command(
    track: Seq<(usize, ImageAccess)>,
    command_idx: usize,
    transitions: Seq<ImageTransitionInfo>,
    image: u64,
) -> Seq<(usize, ImageAccess)>
    decreases transitions.len(),
{
    if transitions.len() == 0 {
        track
    } else {
        let before = track_in_command(track, command_idx, transitions.drop_last(), image);
        if transitions.last().image.image == image {
            track_push(before, command_idx, transitions.last())
        } else {
            before
        }
    }
}

/// The track of the image with handle `image` over a command list.
pub open spec fn track_of(commands: Seq<GpuCommand>, image: u64) -> Seq<(usize, ImageAccess)>
    decreases commands.len(),
{
    if commands.len() == 0 {
        Seq::empty()
    } else {
        track_in_command(
            track_of(commands.drop_last(), image),
            (commands.len() - 1) as usize,
            commands.last().transitions(),
            image,
        )
    }
}

/// Whether one of the images has the handle `image`.
pub open spec fn has_image(images: Seq<Image2d>, image: u64) -> bool {
    exists|s: int| 0 <= s < images.len() && #[trigger] images[s].image == image
}

/// The images after the given transitions: each image that was not yet among them
/// is added at the end, as the transition describes it.
pub open spec fn images_in_command(
    images: Seq<Image2d>,
    transitions: Seq<ImageTransitionInfo>,
) -> Seq<Image2d>
    decreases transitions.len(),
{
    if transitions.len() == 0 {
        images
    } else {
        let before = images_in_command(images, transitions.drop_last());
        if has_image(before, transitions.last().image.image) {
            before
        } else {
            before.push(*transitions.last().image)
        }
    }
}

/// The images that a command list mentions, in the order of their first mention.
/// Two mentions are of the same image when the handles are equal.
pub open spec fn images_of(commands: Seq<GpuCommand>) -> Seq<Image2d>
    decreases commands.len(),
{
    if commands.len() == 0 {
        Seq::empty()
    } else {
        images_in_command(images_of(commands.drop_last()), commands.last().transitions())
    }
}

/// The images after the first `done` transitions of command `command_idx`.
spec fn images_partial(commands: Seq<GpuCommand>, command_idx: int, done: int) -> Seq<
    Image2d,
> {
    images_in_command(
        images_of(commands.take(command_idx)),
        commands[command_idx].transitions().take(done),
    )
}

/// The track of `image` after the first `done` transitions of command `command_idx`.
spec fn track_partial(
    commands: Seq<GpuCommand>,
    command_idx: int,
    done: int,
    image: u64,
) -> Seq<(usize, ImageAccess)> {
    track_in_command(
        track_of(commands.take(command_idx), image),
        command_idx as usize,
        commands[command_idx].transitions().take(done),
        image,
    )
}

/// An image and the states gathered for it.
struct ImageTrack {
    image: Image2d,
    transitions: Vec<(usize, ImageAccess)>,
}

/// The index maps the handle of each image to its place among the images, and
/// nothing else.
spec fn index_matches(entries: Map<u64, usize>, images: Seq<Image2d>) -> bool {
    &&& forall|s: int|
        0 <= s < images.len() ==> entries.dom().contains(#[trigger] images[s].image)
            && entries[images[s].image] == s
    &&& forall|h: u64| #[trigger]
        entries.dom().contains(h) ==> 0 <= entries[h] < images.len() && images[entries[h] as int].image
            == h
}

/// The tracks are those of the given images, place by place.
spec fn tracks_match(
    tracks: Seq<ImageTrack>,
    images: Seq<Image2d>,
    track: spec_fn(u64) -> Seq<(usize, ImageAccess)>,
) -> bool {
    &&& tracks.len() == images.len()
    &&& forall|s: int|
        0 <= s < tracks.len() ==> (#[trigger] tracks[s]).image == images[s] && tracks[s].transitions@
            == track(images[s].image)
    &&& forall|h: u64| !has_image(images, h) ==> (#[trigger] track(h)).len() == 0
}

proof fn lemma_tracks_match_same(
    tracks: Seq<ImageTrack>,
    images: Seq<Image2d>,
    first: spec_fn(u64) -> Seq<(usize, ImageAccess)>,
    second: spec_fn(u64) -> Seq<(usize, ImageAccess)>,
)
    requires
        tracks_match(tracks, images, first),
        forall|h: u64|
            #![trigger first(h)]
            #![trigger second(h)]
            first(h) == second(h),
    ensures
        tracks_match(tracks, images, second),
{
}

proof fn lemma_partial_start(commands: Seq<GpuCommand>, command_idx: int, image: u64)
    requires
        0 <= command_idx < commands.len(),
    ensures
        images_partial(commands, command_idx, 0) == images_of(commands.take(command_idx)),
        track_partial(commands, command_idx, 0, image) == track_of(
            commands.take(command_idx),
            image,
        ),
{
}

proof fn lemma_partial_end(commands: Seq<GpuCommand>, command_idx: int, image: u64)
    requires
        0 <= command_idx < commands.len(),
        commands.len() <= usize::MAX,
    ensures
        images_partial(commands, command_idx, commands[command_idx].transitions().len() as int)
            == images_of(commands.take(command_idx + 1)),
        track_partial(
            commands,
            command_idx,
            commands[command_idx].transitions().len() as int,
            image,
        ) == track_of(commands.take(command_idx + 1), image),
{
    let transitions = commands[command_idx].transitions();
    let next = commands.take(command_idx + 1);
    assert(transitions.take(transitions.len() as int) =~= transitions);
    assert(next.drop_last() =~= commands.take(command_idx));
    assert(next.last() == commands[command_idx]);
}

proof fn lemma_partial_step(commands: Seq<GpuCommand>, command_idx: int, done: int, image: u64)
    requires
        0 <= command_idx < commands.len(),
        0 <= done < commands[command_idx].transitions().len(),
    ensures
        images_partial(commands, command_idx, done + 1) == ({
            let before = images_partial(commands, command_idx, done);
            let transition = commands[command_idx].transitions()[done];
            if has_image(before, transition.image.image) {
                before
            } else {
                before.push(*transition.image)
            }
        }),
        track_partial(commands, command_idx, done + 1, image) == ({
            let before = track_partial(commands, command_idx, done, image);
            let transition = commands[command_idx].transitions()[done];
            if transition.image.image == image {
                track_push(before, command_idx as usize, transition)
            } else {
                before
            }
        }),
{
    let transitions = commands[command_idx].transitions();
    assert(transitions.take(done + 1).drop_last() =~= transitions.take(done));
    assert(transitions.take(done + 1).last() == transitions[done]);
}

/// Adds the state that one transition declares to the tracks, opening a track for
/// an image that is met for the first time.
fn note_transition(
    tracks: &mut Vec<ImageTrack>,
    index: &mut ImageIndex,
    command_idx: usize,
    transition: &ImageTransitionInfo,
    Ghost(images): Ghost<Seq<Image2d>>,
    Ghost(track): Ghost<spec_fn(u64) -> Seq<(usize, ImageAccess)>>,
)
    requires
        command_idx < usize::MAX,
        tracks_match(old(tracks)@, images, track),
        index_matches(index_entries(*old(index)), images),
    ensures
        tracks_match(
            final(tracks)@,
            if has_image(images, transition.image.image) {
                images
            } else {
                images.push(*transition.image)
            },
            |h: u64|
                if h == transition.image.image {
                    track_push(track(h), command_idx, *transition)
                } else {
                    track(h)
                },
        ),
        index_matches(
            index_entries(*final(index)),
            if has_image(images, transition.image.image) {
                images
            } else {
                images.push(*transition.image)
            },
        ),
{
    let handle = transition.image.image;
    let ghost images_after = if has_image(images, handle) {
        images
    } else {
        images.push(*transition.image)
    };
    let ghost track_after = |h: u64|
        if h == handle {
            track_push(track(h), command_idx, *transition)
        } else {
            track(h)
        };
    let slot = match index_get(index, handle) {
        Some(slot) => {
            assert(images[slot as int].image == handle);
            slot
        },
        None => {
            let slot = tracks.len();
            assert(!has_image(images, handle)) by {
                if has_image(images, handle) {
                    let s = choose|s: int| 0 <= s < images.len() && images[s].image == handle;
                    assert(index_entries(*index).dom().contains(images[s].image));
                }
            }
            tracks.push(ImageTrack { image: *transition.image, transitions: Vec::new() });
            let _ = index_insert(index, handle, slot);
            assert(track(handle).len() == 0);
            assert(track(handle) =~= Seq::empty());
            slot
        },
    };
    assert(images_after[slot as int].image == handle);
    assert(tracks@.len() == images_after.len());
    assert(tracks[slot as int].transitions@ == track(handle));
    assert(forall|s: int|
        0 <= s < tracks.len() && s != slot ==> (#[trigger] tracks[s]).image == images_after[s]
            && tracks[s].transitions@ == track(images_after[s].image));
    assert(index_matches(index_entries(*index), images_after));
    let ghost tracks_before = tracks@;
    match transition.old_access {
        Some(old) => {
            if tracks[slot].transitions.len() == 0 {
                tracks[slot].transitions.push((command_idx, old));
            }
        },
        None => {},
    }
    match transition.new_access {
        Some(new) => {
            let len = tracks[slot].transitions.len();
            if len > 0 && tracks[slot].transitions[len - 1].1 == new {
            } else {
                tracks[slot].transitions.push((command_idx + 1, new));
            }
        },
        None => {},
    }
    proof {
        assert(tracks[slot as int].transitions@ == track_push(
            track(handle),
            command_idx,
            *transition,
        ));
        assert(tracks[slot as int].image == tracks_before[slot as int].image);
        assert forall|s: int| 0 <= s < tracks.len() implies (#[trigger] tracks[s]).image
            == images_after[s] && tracks[s].transitions@ == track_after(
            images_after[s].image,
        ) by {
            if s != slot {
                assert(tracks[s] == tracks_before[s]);
                assert(images_after[s].image != handle) by {
                    assert(index_entries(*index)[images_after[s].image] == s);
                    assert(index_entries(*index)[images_after[slot as int].image] == slot);
                }
            }
        }
        assert forall|h: u64| !has_image(images_after, h) implies (#[trigger] track_after(
            h,
        )).len() == 0 by {
            assert(h != handle);
            if has_image(images, h) {
                let s = choose|s: int| 0 <= s < images.len() && images[s].image == h;
                assert(images_after[s].image == h);
            }
        }
    }
}

/// The first walk: the images that the list mentions, in the order of their first
/// mention, each with its track.
fn gather_tracks<'a>(commands: &[GpuCommand<'a>]) -> (tracks: Vec<ImageTrack>)
    ensures
        tracks_match(tracks@, images_of(commands@), |h: u64| track_of(commands@, h)),
{
    let mut tracks: Vec<ImageTrack> = Vec::new();
    let mut index = index_new();
    let mut command_idx: usize = 0;
    assert(index_matches(index_entries(index), images_of(commands@.take(0))));
    while command_idx < commands.len()
        invariant
            command_idx <= commands.len(),
            tracks_match(
                tracks@,
                images_of(commands@.take(command_idx as int)),
                |h: u64| track_of(commands@.take(command_idx as int), h),
            ),
            index_matches(index_entries(index), images_of(commands@.take(command_idx as int))),
        decreases commands.len() - command_idx,
    {
        let transitions = commands[command_idx].access_transitions();
        let mut done: usize = 0;
        proof {
            assert forall|h: u64| track_partial(commands@, command_idx as int, 0, h) == track_of(
                commands@.take(command_idx as int),
                h,
            ) by {
                lemma_partial_start(commands@, command_idx as int, h);
            }
            lemma_partial_start(commands@, command_idx as int, 0);
            lemma_tracks_match_same(
                tracks@,
                images_of(commands@.take(command_idx as int)),
                |h: u64| track_of(commands@.take(command_idx as int), h),
                |h: u64| track_partial(commands@, command_idx as int, 0, h),
            );
        }
        while done < transitions.len()
            invariant
                command_idx < commands.len(),
                transitions@ == commands@[command_idx as int].transitions(),
                done <= transitions.len(),
                tracks_match(
                    tracks@,
                    images_partial(commands@, command_idx as int, done as int),
                    |h: u64| track_partial(commands@, command_idx as int, done as int, h),
                ),
                index_matches(
                    index_entries(index),
                    images_partial(commands@, command_idx as int, done as int),
                ),
            decreases transitions.len() - done,
        {
            let ghost images = images_partial(commands@, command_idx as int, done as int);
            let ghost track = |h: u64| track_partial(commands@, command_idx as int, done as int, h);
            let ghost transition = transitions@[done as int];
            note_transition(
                &mut tracks,
                &mut index,
                command_idx,
                &transitions[done],
                Ghost(images),
                Ghost(track),
            );
            proof {
                assert forall|h: u64|
                    track_partial(commands@, command_idx as int, done + 1, h) == (if h
                        == transitions@[done as int].image.image {
                        track_push(
                            track_partial(commands@, command_idx as int, done as int, h),
                            command_idx,
                            transitions@[done as int],
                        )
                    } else {
                        track_partial(commands@, command_idx as int, done as int, h)
                    }) by {
                    lemma_partial_step(commands@, command_idx as int, done as int, h);
                }
                lemma_partial_step(commands@, command_idx as int, done as int, 0);
                lemma_tracks_match_same(
                    tracks@,
                    images_partial(commands@, command_idx as int, done + 1),
                    |h: u64|
                        if h == transition.image.image {
                            track_push(track(h), command_idx, transition)
                        } else {
                            track(h)
                        },
                    |h: u64| track_partial(commands@, command_idx as int, done + 1, h),
                );
            }
            done += 1;
        }
        proof {
            assert forall|h: u64|
                track_partial(commands@, command_idx as int, done as int, h) == track_of(
                    commands@.take(command_idx + 1),
                    h,
                ) by {
                lemma_partial_end(commands@, command_idx as int, h);
            }
            lemma_partial_end(commands@, command_idx as int, 0);
            lemma_tracks_match_same(
                tracks@,
                images_of(commands@.take(command_idx + 1)),
                |h: u64| track_partial(commands@, command_idx as int, done as int, h),
                |h: u64| track_of(commands@.take(command_idx + 1), h),
            );
        }
        command_idx += 1;
    }
    assert(commands@.take(command_idx as int) =~= commands@);
    tracks
}

/// The place in the track of the first state due at `due`, looking from `from` on;
/// the length of the track if no state is due there.
pub open spec fn first_due_from(track: Seq<(usize, ImageAccess)>, due: usize, from: int) -> int
    decreases track.len() - from,
{
    if from >= track.len() {
        track.len() as int
    } else if track[from].0 == due {
        from
    } else {
        first_due_from(track, due, from + 1)
    }
}

/// The barrier that moves `image` from the state `old` to the state `new`: stages,
/// access masks and layouts are those of the two states, for a depth image or a
/// colour image as the format says, over the whole image, by region.
pub open spec fn barrier<'a>(image: Image2d, old: ImageAccess, new: ImageAccess) -> DeviceCommand<
    'a,
> {
    let depth = spec_is_format_depth(image.format);
    DeviceCommand::PipelineBarrier {
        image: image.image,
        src_stage_mask: old.pipeline_stage(),
        dst_stage_mask: new.pipeline_stage(),
        dependency_flags: vulkan::DEPENDENCY_BY_REGION,
        src_access_mask: old.access_flags(depth),
        dst_access_mask: new.access_flags(depth),
        old_layout: old.image_layout(depth),
        new_layout: new.image_layout(depth),
        subresource_range: Image2d::subresource_range_of(image.format),
    }
}

/// The barrier for `image` before the command at `command_idx`, if it needs one:
/// the first state of its track that is due there, unless that is the first state
/// of the track, is entered from the state before it.
pub open spec fn barrier_for<'a>(
    image: Image2d,
    track: Seq<(usize, ImageAccess)>,
    command_idx: usize,
) -> Option<DeviceCommand<'a>> {
    let place = first_due_from(track, (command_idx + 1) as usize, 0);
    if 0 < place < track.len() && track[place - 1].1 != track[place].1 {
        Some(barrier(image, track[place - 1].1, track[place].1))
    } else {
        None
    }
}

/// The barriers before the command at `command_idx`, one image after the other.
pub open spec fn barriers_before<'a>(
    images: Seq<Image2d>,
    commands: Seq<GpuCommand<'a>>,
    command_idx: usize,
) -> Seq<DeviceCommand<'a>>
    decreases images.len(),
{
    if images.len() == 0 {
        Seq::empty()
    } else {
        let rest = barriers_before(images.drop_last(), commands, command_idx);
        match barrier_for(
            images.last(),
            track_of(commands, images.last().image),
            command_idx,
        ) {
            Some(barrier) => rest.push(barrier),
            None => rest,
        }
    }
}

/// The device's command stream for the first `n` commands of the list: before
/// each command the barriers that it needs, for the images in the order of their
/// first mention in the list, then the command's own device commands.
pub open spec fn recorded<'a>(commands: Seq<GpuCommand<'a>>, n: int) -> Seq<DeviceCommand<'a>>
    decreases n,
{
    if n <= 0 {
        Seq::empty()
    } else {
        recorded(commands, n - 1) + barriers_before(
            images_of(commands),
            commands,
            (n - 1) as usize,
        ) + commands[n - 1].device_commands()
    }
}

/// The first command of the list that holds a fault, with the fault.
pub open spec fn list_fault(commands: Seq<GpuCommand>) -> Option<RecordError>
    decreases commands.len(),
{
    if commands.len() == 0 {
        None
    } else {
        match list_fault(commands.drop_last()) {
            Some(fault) => Some(fault),
            None => match commands.last().fault() {
                Some((pass_command, error)) => Some(
                    RecordError { command: (commands.len() - 1) as usize, pass_command, error },
                ),
                None => None,
            },
        }
    }
}

/// A fault among the first commands of a list is the fault of the list.
pub proof fn lemma_list_fault_stays(commands: Seq<GpuCommand>, n: int)
    requires
        0 <= n <= commands.len(),
        list_fault(commands.take(n)) is Some,
    ensures
        list_fault(commands) == list_fault(commands.take(n)),
    decreases commands.len(),
{
    if n == commands.len() {
        assert(commands.take(n) =~= commands);
    } else {
        assert(commands.drop_last().take(n) =~= commands.take(n));
        lemma_list_fault_stays(commands.drop_last(), n);
    }
}

/// A command list that cannot be recorded: the render pass at `command` holds, at
/// `pass_command`, a command that names something the pass does not have.
#[derive(Debug, Clone, Copy, PartialEq, Eq, Structural)]
pub struct RecordError {
    pub command: usize,
    pub pass_command: usize,
    pub error: PassCommandError,
}

/// A recorded command list: the flags to begin the command buffer with, and the
/// commands to put into it, in order.
#[derive(Debug, Clone, PartialEq, Eq)]
pub struct Recording<'a> {
    pub begin_flags: u32,
    pub commands: Vec<DeviceCommand<'a>>,
}

/// The flags to begin a command buffer with.
pub open spec fn spec_begin_flags(one_time: bool) -> u32 {
    if one_time {
        vulkan::COMMAND_BUFFER_USAGE_ONE_TIME_SUBMIT
    } else {
        vulkan::COMMAND_BUFFER_USAGE_NONE
    }
}

/// The place in the track of the first state due at `due`.
fn find_due(track: &Vec<(usize, ImageAccess)>, due: usize) -> (place: usize)
    ensures
        place == first_due_from(track@, due, 0),
        place <= track.len(),
{
    let mut place: usize = 0;
    while place < track.len() && track[place].0 != due
        invariant
            place <= track.len(),
            first_due_from(track@, due, 0) == first_due_from(track@, due, place as int),
        decreases track.len() - place,
    {
        place += 1;
    }
    place
}

/// Appends the barriers that the command at `command_idx` needs to the stream.
fn emit_barriers<'a>(
    tracks: &Vec<ImageTrack>,
    command_idx: usize,
    stream: &mut Vec<DeviceCommand<'a>>,
    Ghost(commands): Ghost<Seq<GpuCommand<'a>>>,
)
    requires
        command_idx < usize::MAX,
        tracks_match(tracks@, images_of(commands), |h: u64| track_of(commands, h)),
    ensures
        final(stream)@ == old(stream)@ + barriers_before(
            images_of(commands),
            commands,
            command_idx,
        ),
{
    let ghost images = images_of(commands);
    let mut slot: usize = 0;
    assert(stream@ =~= old(stream)@ + barriers_before(images.take(0), commands, command_idx));
    while slot < tracks.len()
        invariant
            command_idx < usize::MAX,
            slot <= tracks.len(),
            images == images_of(commands),
            tracks_match(tracks@, images, |h: u64| track_of(commands, h)),
            stream@ == old(stream)@ + barriers_before(
                images.take(slot as int),
                commands,
                command_idx,
            ),
        decreases tracks.len() - slot,
    {
        let track = &tracks[slot];
        proof {
            let next = images.take(slot + 1);
            assert(next.drop_last() =~= images.take(slot as int));
            assert(next.last() == track.image);
            assert(track.transitions@ == track_of(commands, track.image.image));
        }
        let place = find_due(&track.transitions, command_idx + 1);
        if 0 < place && place < track.transitions.len() {
            let access_old = track.transitions[place - 1].1;
            let access_new = track.transitions[place].1;
            if access_old != access_new {
                let is_depth_image = is_format_depth(track.image.format);
                stream.push(
                    DeviceCommand::PipelineBarrier {
                        image: track.image.image,
                        src_stage_mask: access_old.get_pipeline_stage(),
                        dst_stage_mask: access_new.get_pipeline_stage(),
                        dependency_flags: vulkan::DEPENDENCY_BY_REGION,
                        src_access_mask: access_old.to_access_flags(is_depth_image),
                        dst_access_mask: access_new.to_access_flags(is_depth_image),
                        old_layout: access_old.get_image_layout(is_depth_image),
                        new_layout: access_new.get_image_layout(is_depth_image),
                        subresource_range: track.image.get_subresource_range(),
                    },
                );
            }
        }
        assert(stream@ =~= old(stream)@ + barriers_before(
            images.take(slot + 1),
            commands,
            command_idx,
        ));
        slot += 1;
    }
    assert(images.take(slot as int) =~= images);
}

impl Painter {
    /// Records a command list: derives the barriers that the declared states call
    /// for and lays out the device's command stream. A list with a faulty render
    /// pass is refused, with its first fault.
    pub fn record_cmd_buffer<'a>(&self, commands: &'a [GpuCommand<'a>], one_time: bool) -> (outcome:
        Result<Recording<'a>, RecordError>)
        ensures
            match list_fault(commands@) {
                Some(fault) => outcome == Err::<Recording<'a>, RecordError>(fault),
                None => outcome is Ok && outcome->Ok_0.commands@ == recorded(
                    commands@,
                    commands@.len() as int,
                ) && outcome->Ok_0.begin_flags == spec_begin_flags(one_time),
            },
    {
        let begin_flags = if one_time {
            vulkan::COMMAND_BUFFER_USAGE_ONE_TIME_SUBMIT
        } else {
            vulkan::COMMAND_BUFFER_USAGE_NONE
        };
        let tracks = gather_tracks(commands);
        let mut stream: Vec<DeviceCommand<'a>> = Vec::new();
        let mut command_idx: usize = 0;
        while command_idx < commands.len()
            invariant
                command_idx <= commands.len(),
                tracks_match(tracks@, images_of(commands@), |h: u64| track_of(commands@, h)),
                list_fault(commands@.take(command_idx as int)) is None,
                stream@ == recorded(commands@, command_idx as int),
            decreases commands.len() - command_idx,
        {
            let ghost next = commands@.take(command_idx + 1);
            assert(next.drop_last() =~= commands@.take(command_idx as int));
            assert(next.last() == commands@[command_idx as int]);
            emit_barriers(&tracks, command_idx, &mut stream, Ghost(commands@));
            match commands[command_idx].emit(&mut stream) {
                Ok(()) => {},
                Err((pass_command, error)) => {
                    proof {
                        assert(list_fault(next) == Some(
                            RecordError { command: command_idx, pass_command, error },
                        ));
                        lemma_list_fault_stays(commands@, command_idx + 1);
                    }
                    return Err(RecordError { command: command_idx, pass_command, error });
                },
            }
            command_idx += 1;
        }
        assert(commands@.take(command_idx as int) =~= commands@);
        Ok(Recording { begin_flags, commands: stream })
    }
}

} // verus!
