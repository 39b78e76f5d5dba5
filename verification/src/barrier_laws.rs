//! What holds of the barriers that the recorder emits, for every command list.

use vstd::prelude::*;
use crate::command::{DeviceCommand, GpuCommand, ImageTransitionInfo};
use crate::image::{Image2d, ImageAccess};
use crate::recorder::{
    barrier, barrier_for, barriers_before, first_due_from, has_image, images_in_command,
    images_of, recorded, track_in_command, track_of, track_push,
};

verus! {

/// No two neighbours in the track are the same state.
pub open spec fn coalesced(track: Seq<(usize, ImageAccess)>) -> bool {
    forall|p: int| 0 < p < track.len() ==> track[p - 1].1 != (#[trigger] track[p]).1
}

/// `longer` is `track` with states added by the command at `command_idx`: a state
/// at the head of the track is due at `command_idx` or the position after it, any
/// other at the position after it.
pub open spec fn extends_at(
    track: Seq<(usize, ImageAccess)>,
    longer: Seq<(usize, ImageAccess)>,
    command_idx: usize,
) -> bool {
    &&& track.len() <= longer.len()
    &&& longer.take(track.len() as int) == track
    &&& forall|p: int|
        track.len() <= p < longer.len() ==> ((#[trigger] longer[p]).0 == command_idx + 1 || (p
            == 0 && longer[p].0 == command_idx))
}

/// What one declaration adds to a track.
pub proof fn lemma_push_shape(
    track: Seq<(usize, ImageAccess)>,
    command_idx: usize,
    transition: ImageTransitionInfo,
)
    requires
        command_idx < usize::MAX,
    ensures
        extends_at(track, track_push(track, command_idx, transition), command_idx),
        coalesced(track) ==> coalesced(track_push(track, command_idx, transition)),
{
    let after = track_push(track, command_idx, transition);
    assert(after.take(track.len() as int) =~= track);
}

proof fn lemma_extends_chain(
    first: Seq<(usize, ImageAccess)>,
    second: Seq<(usize, ImageAccess)>,
    third: Seq<(usize, ImageAccess)>,
    command_idx: usize,
)
    requires
        extends_at(first, second, command_idx),
        extends_at(second, third, command_idx),
    ensures
        extends_at(first, third, command_idx),
{
    assert(third.take(first.len() as int) =~= third.take(second.len() as int).take(
        first.len() as int,
    ));
    assert forall|p: int| first.len() <= p < third.len() implies ((#[trigger] third[p]).0
        == command_idx + 1 || (p == 0 && third[p].0 == command_idx)) by {
        if p < second.len() {
            assert(third[p] == third.take(second.len() as int)[p]);
            assert(second[p].0 == command_idx + 1 || (p == 0 && second[p].0 == command_idx));
        }
    }
}

/// What one command adds to a track.
pub proof fn lemma_command_shape(
    track: Seq<(usize, ImageAccess)>,
    command_idx: usize,
    transitions: Seq<ImageTransitionInfo>,
    image: u64,
)
    requires
        command_idx < usize::MAX,
    ensures
        extends_at(
            track,
            track_in_command(track, command_idx, transitions, image),
            command_idx,
        ),
        coalesced(track) ==> coalesced(track_in_command(track, command_idx, transitions, image)),
        (forall|j: int| 0 <= j < transitions.len() ==> transitions[j].image.image != image)
            ==> track_in_command(track, command_idx, transitions, image) == track,
    decreases transitions.len(),
{
    if transitions.len() == 0 {
        assert(track.take(track.len() as int) =~= track);
    } else {
        let before = track_in_command(track, command_idx, transitions.drop_last(), image);
        lemma_command_shape(track, command_idx, transitions.drop_last(), image);
        if transitions.last().image.image == image {
            lemma_push_shape(before, command_idx, transitions.last());
            lemma_extends_chain(
                track,
                before,
                track_push(before, command_idx, transitions.last()),
                command_idx,
            );
        }
        if forall|j: int| 0 <= j < transitions.len() ==> transitions[j].image.image != image {
            assert forall|j: int| 0 <= j < transitions.drop_last().len() implies transitions.drop_last()[j].image.image
                != image by {
                assert(transitions.drop_last()[j] == transitions[j]);
            }
        }
    }
}

/// The track over the first `n` commands of a list.
pub open spec fn track_upto(commands: Seq<GpuCommand>, n: int, image: u64) -> Seq<
    (usize, ImageAccess),
> {
    track_of(commands.take(n), image)
}

/// One more command: the track over `n + 1` commands is the track over `n` after
/// the command at `n`.
pub proof fn lemma_track_step(commands: Seq<GpuCommand>, n: int, image: u64)
    requires
        0 <= n < commands.len(),
        commands.len() <= usize::MAX,
    ensures
        track_upto(commands, n + 1, image) == track_in_command(
            track_upto(commands, n, image),
            n as usize,
            commands[n].transitions(),
            image,
        ),
        extends_at(track_upto(commands, n, image), track_upto(commands, n + 1, image), n as usize),
{
    let next = commands.take(n + 1);
    assert(next.drop_last() =~= commands.take(n));
    assert(next.last() == commands[n]);
    lemma_command_shape(track_upto(commands, n, image), n as usize, commands[n].transitions(), image);
}

/// The track over a list begins with the track over each of its beginnings, holds
/// no two equal neighbours, and each state in it is due where its command stands
/// or later.
pub proof fn lemma_track_grows(commands: Seq<GpuCommand>, k: int, n: int, image: u64)
    requires
        0 <= k <= n <= commands.len(),
        commands.len() <= usize::MAX,
    ensures
        track_upto(commands, k, image).len() <= track_upto(commands, n, image).len(),
        track_upto(commands, n, image).take(track_upto(commands, k, image).len() as int)
            == track_upto(commands, k, image),
        coalesced(track_upto(commands, n, image)),
        forall|p: int|
            0 <= p < track_upto(commands, n, image).len() ==> (#[trigger] track_upto(
                commands,
                n,
                image,
            )[p]).0 <= n,
        forall|p: int|
            track_upto(commands, k, image).len() <= p < track_upto(commands, n, image).len() ==> (
            #[trigger] track_upto(commands, n, image)[p]).0 >= k && (p > 0 ==> track_upto(
                commands,
                n,
                image,
            )[p].0 >= k + 1),
    decreases n,
{
    let full = track_upto(commands, n, image);
    if n == 0 {
        assert(commands.take(0) =~= Seq::<GpuCommand>::empty());
        assert(full.take(0) =~= full);
    } else if k == n {
        lemma_track_grows(commands, k - 1, n - 1, image);
        lemma_track_step(commands, n - 1, image);
        let shorter = track_upto(commands, n - 1, image);
        assert(full.take(full.len() as int) =~= full);
        assert forall|p: int| 0 <= p < full.len() implies (#[trigger] full[p]).0 <= n by {
            if p < shorter.len() {
                assert(full[p] == full.take(shorter.len() as int)[p]);
            }
        }
        assert(coalesced(shorter));
        lemma_command_shape(shorter, (n - 1) as usize, commands[n - 1].transitions(), image);
    } else {
        lemma_track_grows(commands, k, n - 1, image);
        lemma_track_step(commands, n - 1, image);
        let shorter = track_upto(commands, n - 1, image);
        let start = track_upto(commands, k, image);
        lemma_command_shape(shorter, (n - 1) as usize, commands[n - 1].transitions(), image);
        assert(full.take(start.len() as int) =~= full.take(shorter.len() as int).take(
            start.len() as int,
        ));
        assert forall|p: int| 0 <= p < full.len() implies (#[trigger] full[p]).0 <= n by {
            if p < shorter.len() {
                assert(full[p] == full.take(shorter.len() as int)[p]);
            }
        }
        assert forall|p: int| start.len() <= p < full.len() implies (#[trigger] full[p]).0 >= k
            && (p > 0 ==> full[p].0 >= k + 1) by {
            if p < shorter.len() {
                assert(full[p] == full.take(shorter.len() as int)[p]);
            }
        }
    }
}

/// Where the first state due at `due` stands: nothing before it is due there.
pub proof fn lemma_first_due(track: Seq<(usize, ImageAccess)>, due: usize, from: int)
    requires
        0 <= from <= track.len(),
    ensures
        from <= first_due_from(track, due, from) <= track.len(),
        forall|p: int| from <= p < first_due_from(track, due, from) ==> (#[trigger] track[p]).0 != due,
        first_due_from(track, due, from) < track.len() ==> track[first_due_from(
            track,
            due,
            from,
        )].0 == due,
    decreases track.len() - from,
{
    if from < track.len() && track[from].0 != due {
        lemma_first_due(track, due, from + 1);
    }
}

/// A place that nothing due at `due` comes before, and that is the end of the
/// track or holds a state due at `due`, is where the search ends.
pub proof fn lemma_first_due_is(track: Seq<(usize, ImageAccess)>, due: usize, place: int)
    requires
        0 <= place <= track.len(),
        forall|p: int| 0 <= p < place ==> (#[trigger] track[p]).0 != due,
        place < track.len() ==> track[place].0 == due,
    ensures
        first_due_from(track, due, 0) == place,
{
    lemma_first_due(track, due, 0);
    let found = first_due_from(track, due, 0);
    if found < place {
        assert(track[found].0 != due);
    } else if found > place {
        assert(track[place].0 != due);
    }
}

/// The barrier that a command brings about for an image, told from the image's
/// track before the command and after it: a command that adds to a started track
/// enters the first state it adds from the last state before; a command that
/// opens the track with a starting state and adds a needed state enters the second
/// from the first.
pub open spec fn local_barrier<'a>(
    image: Image2d,
    before: Seq<(usize, ImageAccess)>,
    after: Seq<(usize, ImageAccess)>,
    command_idx: usize,
) -> Option<DeviceCommand<'a>> {
    if before.len() >= 1 {
        if after.len() > before.len() {
            Some(barrier(image, before.last().1, after[before.len() as int].1))
        } else {
            None
        }
    } else if after.len() >= 2 && after[0].0 == command_idx {
        Some(barrier(image, after[0].1, after[1].1))
    } else {
        None
    }
}

/// The barrier before a command depends on the track up to and including that
/// command only: what later commands add to the track is due later.
pub proof fn lemma_barrier_is_local<'a>(
    commands: Seq<GpuCommand<'a>>,
    command_idx: int,
    n: int,
    image: Image2d,
)
    requires
        0 <= command_idx < n <= commands.len(),
        commands.len() <= usize::MAX,
    ensures
        barrier_for::<'a>(image, track_upto(commands, n, image.image), command_idx as usize)
            == local_barrier::<'a>(
            image,
            track_upto(commands, command_idx, image.image),
            track_upto(commands, command_idx + 1, image.image),
            command_idx as usize,
        ),
{
    let handle = image.image;
    let before = track_upto(commands, command_idx, handle);
    let after = track_upto(commands, command_idx + 1, handle);
    let full = track_upto(commands, n, handle);
    let due = (command_idx + 1) as usize;
    lemma_track_grows(commands, command_idx, command_idx, handle);
    lemma_track_grows(commands, command_idx, n, handle);
    lemma_track_grows(commands, command_idx + 1, n, handle);
    lemma_track_step(commands, command_idx, handle);
    assert forall|p: int| 0 <= p < after.len() implies full[p] == #[trigger] after[p] by {
        assert(full.take(after.len() as int)[p] == full[p]);
    }
    assert forall|p: int| 0 <= p < before.len() implies full[p] == #[trigger] before[p] by {
        assert(full.take(before.len() as int)[p] == full[p]);
    }
    assert forall|p: int| 0 <= p < before.len() implies (#[trigger] full[p]).0 != due by {
        assert(before[p].0 <= command_idx);
    }
    assert forall|p: int| before.len() <= p < after.len() implies ((#[trigger] full[p]).0 == due
        || (p == 0 && full[p].0 == command_idx)) by {
        assert(after[p].0 == due || (p == 0 && after[p].0 == command_idx));
    }
    if before.len() >= 1 {
        if after.len() > before.len() {
            lemma_first_due_is(full, due, before.len() as int);
            assert(full[before.len() - 1] == before.last());
            assert(full[before.len() as int] == after[before.len() as int]);
        } else {
            lemma_first_due_is(full, due, full.len() as int);
        }
    } else if after.len() >= 2 && after[0].0 == command_idx {
        assert(full[0] == after[0]);
        assert(full[1] == after[1]);
        lemma_first_due_is(full, due, 1);
    } else if full.len() > 0 && full[0].0 == due {
        lemma_first_due_is(full, due, 0);
    } else {
        assert forall|p: int| 0 <= p < full.len() implies (#[trigger] full[p]).0 != due by {
            if p == 0 {
            } else if p < after.len() {
                assert(after.len() == 1);
            } else {
            }
        }
        lemma_first_due_is(full, due, full.len() as int);
    }
}

/// Whether a device command is a barrier on the image with handle `image`.
pub open spec fn is_barrier_of(command: DeviceCommand, image: u64) -> bool {
    match command {
        DeviceCommand::PipelineBarrier { image: target, .. } => target == image,
        _ => false,
    }
}

/// The barriers on `image` in a stream, in the order of the stream.
pub open spec fn barriers_of<'a>(stream: Seq<DeviceCommand<'a>>, image: u64) -> Seq<
    DeviceCommand<'a>,
>
    decreases stream.len(),
{
    if stream.len() == 0 {
        Seq::empty()
    } else {
        let rest = barriers_of(stream.drop_last(), image);
        if is_barrier_of(stream.last(), image) {
            rest.push(stream.last())
        } else {
            rest
        }
    }
}

/// The barriers of two streams on end are those of the first, then those of the
/// second.
pub proof fn lemma_barriers_of_add<'a>(
    first: Seq<DeviceCommand<'a>>,
    second: Seq<DeviceCommand<'a>>,
    image: u64,
)
    ensures
        barriers_of(first + second, image) == barriers_of(first, image) + barriers_of(
            second,
            image,
        ),
    decreases second.len(),
{
    if second.len() == 0 {
        assert(first + second =~= first);
        assert(barriers_of(first, image) + barriers_of(second, image) =~= barriers_of(
            first,
            image,
        ));
    } else {
        assert((first + second).drop_last() =~= first + second.drop_last());
        lemma_barriers_of_add(first, second.drop_last(), image);
        assert(barriers_of(first + second, image) =~= barriers_of(first, image) + barriers_of(
            second,
            image,
        ));
    }
}

proof fn lemma_no_barriers<'a>(stream: Seq<DeviceCommand<'a>>, image: u64)
    requires
        forall|k: int| 0 <= k < stream.len() ==> !is_barrier_of(#[trigger] stream[k], image),
    ensures
        barriers_of(stream, image) == Seq::<DeviceCommand<'a>>::empty(),
    decreases stream.len(),
{
    if stream.len() > 0 {
        assert forall|k: int| 0 <= k < stream.drop_last().len() implies !is_barrier_of(
            #[trigger] stream.drop_last()[k],
            image,
        ) by {
            assert(stream.drop_last()[k] == stream[k]);
        }
        lemma_no_barriers(stream.drop_last(), image);
    }
}

/// A command's own device commands hold no barrier.
pub proof fn lemma_commands_hold_no_barrier<'a>(command: GpuCommand<'a>, image: u64)
    ensures
        barriers_of(command.device_commands(), image) == Seq::<DeviceCommand<'a>>::empty(),
{
    lemma_no_barriers(command.device_commands(), image);
}

/// No two of the images have the same handle.
pub open spec fn distinct_handles(images: Seq<Image2d>) -> bool {
    forall|s: int, t: int|
        0 <= s < t < images.len() ==> (#[trigger] images[s]).image != (#[trigger] images[t]).image
}

/// The place of the image with handle `image` among the images.
pub open spec fn slot_of(images: Seq<Image2d>, image: u64) -> int {
    choose|s: int| 0 <= s < images.len() && (#[trigger] images[s]).image == image
}

/// The description of the image with handle `image` among the images: the one
/// given where the image was first mentioned.
pub open spec fn described(images: Seq<Image2d>, image: u64) -> Image2d {
    images[slot_of(images, image)]
}

/// What the declarations of one command add to the images: images that were not
/// among them, each once, at the end.
pub proof fn lemma_images_in_command(
    images: Seq<Image2d>,
    transitions: Seq<ImageTransitionInfo>,
    image: u64,
)
    requires
        distinct_handles(images),
    ensures
        distinct_handles(images_in_command(images, transitions)),
        images.len() <= images_in_command(images, transitions).len(),
        images_in_command(images, transitions).take(images.len() as int) == images,
        has_image(images_in_command(images, transitions), image) <==> has_image(images, image) || (
        exists|j: int| 0 <= j < transitions.len() && (#[trigger] transitions[j]).image.image == image),
    decreases transitions.len(),
{
    let after = images_in_command(images, transitions);
    if transitions.len() == 0 {
        assert(after.take(images.len() as int) =~= images);
    } else {
        let before = images_in_command(images, transitions.drop_last());
        lemma_images_in_command(images, transitions.drop_last(), image);
        lemma_images_in_command(images, transitions.drop_last(), transitions.last().image.image);
        assert(after.take(images.len() as int) =~= before.take(images.len() as int));
        if has_image(before, image) {
            let s = choose|s: int| 0 <= s < before.len() && before[s].image == image;
            assert(after[s].image == image);
            if !has_image(images, image) {
                let j = choose|j: int|
                    0 <= j < transitions.drop_last().len() && (
                    #[trigger] transitions.drop_last()[j]).image.image == image;
                assert(transitions[j].image.image == image);
            }
        } else if transitions.last().image.image == image {
            assert(after[after.len() - 1].image == image);
            assert(transitions[transitions.len() - 1].image.image == image);
        } else {
            if has_image(after, image) {
                let s = choose|s: int| 0 <= s < after.len() && after[s].image == image;
                assert(before[s].image == image);
            }
            if exists|j: int|
                0 <= j < transitions.len() && (#[trigger] transitions[j]).image.image == image {
                let j = choose|j: int|
                    0 <= j < transitions.len() && (#[trigger] transitions[j]).image.image == image;
                assert(transitions.drop_last()[j].image.image == image);
            }
        }
        if !has_image(before, transitions.last().image.image) {
            assert forall|s: int, t: int| 0 <= s < t < after.len() implies (#[trigger] after[s]).image
                != (#[trigger] after[t]).image by {
                if t == before.len() {
                    assert(before[s].image != transitions.last().image.image);
                } else {
                    assert(before[s].image != before[t].image);
                }
            }
        }
    }
}

/// Whether the command declares a state for the image with handle `image`.
pub open spec fn mentions(command: GpuCommand, image: u64) -> bool {
    exists|j: int|
        0 <= j < command.transitions().len() && (#[trigger] command.transitions()[j]).image.image
            == image
}

/// The images of a list have distinct handles; an image is among them exactly if
/// a command of the list mentions it, and only then has it a track.
pub proof fn lemma_images_of(commands: Seq<GpuCommand>, image: u64)
    requires
        commands.len() <= usize::MAX,
    ensures
        distinct_handles(images_of(commands)),
        has_image(images_of(commands), image) <==> exists|i: int|
            0 <= i < commands.len() && mentions(#[trigger] commands[i], image),
        !has_image(images_of(commands), image) ==> track_of(commands, image).len() == 0,
    decreases commands.len(),
{
    if commands.len() > 0 {
        let shorter = commands.drop_last();
        lemma_images_of(shorter, image);
        lemma_images_in_command(images_of(shorter), commands.last().transitions(), image);
        if exists|i: int| 0 <= i < shorter.len() && mentions(#[trigger] shorter[i], image) {
            let i = choose|i: int| 0 <= i < shorter.len() && mentions(#[trigger] shorter[i], image);
            assert(mentions(commands[i], image));
        }
        if mentions(commands.last(), image) {
            assert(mentions(commands[commands.len() - 1], image));
        }
        if exists|i: int| 0 <= i < commands.len() && mentions(#[trigger] commands[i], image) {
            let i = choose|i: int|
                0 <= i < commands.len() && mentions(#[trigger] commands[i], image);
            if i < shorter.len() {
                assert(mentions(shorter[i], image));
            }
        }
        if !has_image(images_of(commands), image) {
            lemma_command_shape(
                track_of(shorter, image),
                (commands.len() - 1) as usize,
                commands.last().transitions(),
                image,
            );
        }
    }
}

/// An image's description among the images of a list is the one given where the
/// list first mentions it: longer lists keep it.
pub proof fn lemma_images_keep(commands: Seq<GpuCommand>, k: int, image: u64)
    requires
        0 <= k <= commands.len(),
        commands.len() <= usize::MAX,
        has_image(images_of(commands.take(k)), image),
    ensures
        has_image(images_of(commands), image),
        images_of(commands)[slot_of(images_of(commands), image)] == images_of(
            commands.take(k),
        )[slot_of(images_of(commands.take(k)), image)],
    decreases commands.len() - k,
{
    if k == commands.len() {
        assert(commands.take(k) =~= commands);
    } else {
        let shorter = commands.drop_last();
        assert(shorter.take(k) =~= commands.take(k));
        lemma_images_keep(shorter, k, image);
        lemma_images_of(shorter, image);
        lemma_images_of(commands, image);
        lemma_images_in_command(images_of(shorter), commands.last().transitions(), image);
        let s = slot_of(images_of(shorter), image);
        assert(images_of(commands).take(images_of(shorter).len() as int)[s] == images_of(
            commands,
        )[s]);
        assert(images_of(commands)[s].image == image);
    }
}

/// A barrier, if there is one, as a stream.
pub open spec fn barrier_stream<'a>(barrier: Option<DeviceCommand<'a>>) -> Seq<DeviceCommand<'a>> {
    match barrier {
        Some(barrier) => seq![barrier],
        None => seq![],
    }
}

/// Among the barriers before a command, those on one image are the one barrier
/// that its own track calls for, if it calls for one. Other images' tracks have
/// no part in it.
pub proof fn lemma_barriers_before_of<'a>(
    images: Seq<Image2d>,
    commands: Seq<GpuCommand<'a>>,
    command_idx: usize,
    image: u64,
)
    requires
        distinct_handles(images),
    ensures
        barriers_of(barriers_before(images, commands, command_idx), image) == (if has_image(
            images,
            image,
        ) {
            barrier_stream(
                barrier_for::<'a>(
                    images[slot_of(images, image)],
                    track_of(commands, image),
                    command_idx,
                ),
            )
        } else {
            seq![]
        }),
    decreases images.len(),
{
    let all = barriers_before(images, commands, command_idx);
    if images.len() == 0 {
        assert(barriers_of(all, image) =~= seq![]);
    } else {
        let shorter = images.drop_last();
        let rest = barriers_before(shorter, commands, command_idx);
        lemma_barriers_before_of(shorter, commands, command_idx, image);
        let last = barrier_for::<'a>(
            images.last(),
            track_of(commands, images.last().image),
            command_idx,
        );
        if last is Some {
            assert(all.drop_last() =~= rest);
            assert(all.last() == last->0);
        }
        if images.last().image == image {
            assert(images[images.len() - 1].image == image);
            if has_image(shorter, image) {
                let s = choose|s: int| 0 <= s < shorter.len() && shorter[s].image == image;
                assert(images[s].image == image);
            }
            assert(slot_of(images, image) == images.len() - 1);
            assert(barriers_of(all, image) =~= barrier_stream(last));
        } else {
            if has_image(images, image) {
                let s = slot_of(images, image);
                assert(shorter[s].image == image);
                assert(slot_of(shorter, image) == s) by {
                    let t = slot_of(shorter, image);
                    assert(images[t].image == image);
                }
            } else if has_image(shorter, image) {
                let s = choose|s: int| 0 <= s < shorter.len() && shorter[s].image == image;
                assert(images[s].image == image);
            }
        }
    }
}

/// The barriers on an image in the stream for `n + 1` commands are those in the
/// stream for `n` commands, then the barrier before the command at `n` that the
/// image's track calls for.
pub proof fn lemma_recorded_barriers<'a>(commands: Seq<GpuCommand<'a>>, n: int, image: u64)
    requires
        0 <= n < commands.len(),
        commands.len() <= usize::MAX,
    ensures
        barriers_of(recorded(commands, n + 1), image) == barriers_of(
            recorded(commands, n),
            image,
        ) + barriers_of(barriers_before(images_of(commands), commands, n as usize), image),
        barriers_of(recorded(commands, n + 1), image) == barriers_of(
            recorded(commands, n),
            image,
        ) + (if has_image(images_of(commands), image) {
            barrier_stream(
                barrier_for::<'a>(
                    images_of(commands)[slot_of(images_of(commands), image)],
                    track_of(commands, image),
                    n as usize,
                ),
            )
        } else {
            seq![]
        }),
{
    let images = images_of(commands);
    let head = recorded(commands, n);
    let barriers = barriers_before(images, commands, n as usize);
    let own = commands[n].device_commands();
    lemma_images_of(commands, image);
    lemma_barriers_before_of(images, commands, n as usize, image);
    lemma_commands_hold_no_barrier(commands[n], image);
    lemma_barriers_of_add(head + barriers, own, image);
    lemma_barriers_of_add(head, barriers, image);
    assert(barriers_of(head, image) + barriers_of(barriers, image) + Seq::<
        DeviceCommand<'a>,
    >::empty() =~= barriers_of(head, image) + barriers_of(barriers, image));
}

/// Whether the command declares at most one state for the image with handle
/// `image`. Only a copy of an image onto itself declares two.
pub open spec fn mentions_once(command: GpuCommand, image: u64) -> bool {
    forall|j: int, l: int|
        0 <= j < l < command.transitions().len() ==> !((
        #[trigger] command.transitions()[j]).image.image == image && (
        #[trigger] command.transitions()[l]).image.image == image)
}

proof fn lemma_single_mention(
    track: Seq<(usize, ImageAccess)>,
    command_idx: usize,
    transitions: Seq<ImageTransitionInfo>,
    image: u64,
)
    requires
        command_idx < usize::MAX,
        forall|j: int, l: int|
            0 <= j < l < transitions.len() ==> !((#[trigger] transitions[j]).image.image == image
                && (#[trigger] transitions[l]).image.image == image),
    ensures
        track.len() >= 1 ==> track_in_command(track, command_idx, transitions, image).len()
            <= track.len() + 1,
        track.len() == 0 ==> track_in_command(track, command_idx, transitions, image).len() <= 2,
        track.len() == 0 && track_in_command(track, command_idx, transitions, image).len() == 2
            ==> track_in_command(track, command_idx, transitions, image)[0].0 == command_idx,
    decreases transitions.len(),
{
    if transitions.len() > 0 {
        let earlier = transitions.drop_last();
        assert forall|j: int, l: int| 0 <= j < l < earlier.len() implies !((
        #[trigger] earlier[j]).image.image == image && (#[trigger] earlier[l]).image.image
            == image) by {
            assert(earlier[j] == transitions[j]);
            assert(earlier[l] == transitions[l]);
        }
        lemma_single_mention(track, command_idx, earlier, image);
        if transitions.last().image.image == image {
            assert forall|j: int| 0 <= j < earlier.len() implies earlier[j].image.image
                != image by {
                assert(earlier[j] == transitions[j]);
                assert(transitions[transitions.len() - 1].image.image == image);
            }
            lemma_command_shape(track, command_idx, earlier, image);
        }
    }
}

/// The states of a track, without the places at which they are due.
pub open spec fn states_of(track: Seq<(usize, ImageAccess)>) -> Seq<ImageAccess> {
    Seq::new(track.len(), |p: int| track[p].1)
}

/// The declared states after one more declaration: its starting state, if it has
/// one and nothing was declared before, then the state that it needs.
pub open spec fn declared_push(
    declared: Seq<ImageAccess>,
    transition: ImageTransitionInfo,
) -> Seq<ImageAccess> {
    let started = match transition.old_access {
        Some(old) => if declared.len() == 0 {
            declared.push(old)
        } else {
            declared
        },
        None => declared,
    };
    match transition.new_access {
        Some(new) => started.push(new),
        None => started,
    }
}

/// The declared states of `image` after those of the given declarations that are
/// about it.
pub open spec fn declared_in_command(
    declared: Seq<ImageAccess>,
    transitions: Seq<ImageTransitionInfo>,
    image: u64,
) -> Seq<ImageAccess>
    decreases transitions.len(),
{
    if transitions.len() == 0 {
        declared
    } else {
        let before = declared_in_command(declared, transitions.drop_last(), image);
        if transitions.last().image.image == image {
            declared_push(before, transitions.last())
        } else {
            before
        }
    }
}

/// The states that a command list declares for the image with handle `image`, in
/// the order of the list, repeats and all.
pub open spec fn declared_states(commands: Seq<GpuCommand>, image: u64) -> Seq<ImageAccess>
    decreases commands.len(),
{
    if commands.len() == 0 {
        Seq::empty()
    } else {
        declared_in_command(
            declared_states(commands.drop_last(), image),
            commands.last().transitions(),
            image,
        )
    }
}

/// The states with each run of equal states taken as one.
pub open spec fn without_repeats(states: Seq<ImageAccess>) -> Seq<ImageAccess>
    decreases states.len(),
{
    if states.len() == 0 {
        Seq::empty()
    } else {
        let before = without_repeats(states.drop_last());
        if before.len() > 0 && before.last() == states.last() {
            before
        } else {
            before.push(states.last())
        }
    }
}

proof fn lemma_without_repeats_push(states: Seq<ImageAccess>, state: ImageAccess)
    ensures
        without_repeats(states.push(state)) == ({
            let before = without_repeats(states);
            if before.len() > 0 && before.last() == state {
                before
            } else {
                before.push(state)
            }
        }),
        states.len() == 0 <==> without_repeats(states).len() == 0,
    decreases states.len(),
{
    assert(states.push(state).drop_last() =~= states);
    if states.len() > 0 {
        lemma_without_repeats_push(states.drop_last(), states.last());
        assert(states.drop_last().push(states.last()) =~= states);
    }
}

proof fn lemma_push_states(
    track: Seq<(usize, ImageAccess)>,
    declared: Seq<ImageAccess>,
    command_idx: usize,
    transition: ImageTransitionInfo,
)
    requires
        states_of(track) == without_repeats(declared),
    ensures
        states_of(track_push(track, command_idx, transition)) == without_repeats(
            declared_push(declared, transition),
        ),
{
    lemma_without_repeats_push(declared, ImageAccess::NoAccess);
    assert(track.len() == states_of(track).len());
    let started_track = match transition.old_access {
        Some(old) => if track.len() == 0 {
            track.push((command_idx, old))
        } else {
            track
        },
        None => track,
    };
    let started = match transition.old_access {
        Some(old) => if declared.len() == 0 {
            declared.push(old)
        } else {
            declared
        },
        None => declared,
    };
    if transition.old_access is Some && declared.len() == 0 {
        lemma_without_repeats_push(declared, transition.old_access->0);
    }
    assert(states_of(started_track) =~= without_repeats(started));
    if transition.new_access is Some {
        let new = transition.new_access->0;
        lemma_without_repeats_push(started, new);
        if started_track.len() > 0 {
            assert(states_of(started_track).last() == started_track.last().1);
        }
        assert(states_of(track_push(track, command_idx, transition)) =~= without_repeats(
            started.push(new),
        ));
    }
}

proof fn lemma_command_states(
    track: Seq<(usize, ImageAccess)>,
    declared: Seq<ImageAccess>,
    command_idx: usize,
    transitions: Seq<ImageTransitionInfo>,
    image: u64,
)
    requires
        states_of(track) == without_repeats(declared),
    ensures
        states_of(track_in_command(track, command_idx, transitions, image)) == without_repeats(
            declared_in_command(declared, transitions, image),
        ),
    decreases transitions.len(),
{
    if transitions.len() > 0 {
        lemma_command_states(track, declared, command_idx, transitions.drop_last(), image);
        if transitions.last().image.image == image {
            lemma_push_states(
                track_in_command(track, command_idx, transitions.drop_last(), image),
                declared_in_command(declared, transitions.drop_last(), image),
                command_idx,
                transitions.last(),
            );
        }
    }
}

/// The track of an image holds the states that the list declares for it, each run
/// of equal states taken as one.
pub proof fn lemma_track_is_declared(commands: Seq<GpuCommand>, image: u64)
    ensures
        states_of(track_of(commands, image)) == without_repeats(declared_states(commands, image)),
        track_of(commands, image).len() == without_repeats(declared_states(commands, image)).len(),
    decreases commands.len(),
{
    if commands.len() == 0 {
        assert(states_of(track_of(commands, image)) =~= without_repeats(
            declared_states(commands, image),
        ));
    } else {
        lemma_track_is_declared(commands.drop_last(), image);
        lemma_command_states(
            track_of(commands.drop_last(), image),
            declared_states(commands.drop_last(), image),
            (commands.len() - 1) as usize,
            commands.last().transitions(),
            image,
        );
    }
    assert(states_of(track_of(commands, image)).len() == track_of(commands, image).len());
}

/// The barriers that take an image through the states in order: none into the
/// first state, then one from each state into the next.
pub open spec fn barriers_through<'a>(image: Image2d, states: Seq<ImageAccess>) -> Seq<
    DeviceCommand<'a>,
> {
    Seq::new(
        if states.len() == 0 {
            0nat
        } else {
            (states.len() - 1) as nat
        },
        |j: int| barrier(image, states[j], states[j + 1]),
    )
}

/// For an image that no command of the list declares two states for: where the
/// list declares the states `s0, s1, ..., sn` for the image, runs of equal states
/// taken as one, the barriers on the image in the stream are `n`, and the `j`-th
/// of them leads from `s(j-1)` to `sj`: stages, access masks and layouts are those
/// of the two states for the image's format, as it was described where the image
/// was first mentioned. No barrier leads from a state into the same state. An
/// image without declared states has no barrier.
pub proof fn lemma_one_barrier_per_new_state<'a>(commands: Seq<GpuCommand<'a>>, image: u64)
    requires
        commands.len() <= usize::MAX,
        forall|i: int| 0 <= i < commands.len() ==> mentions_once(#[trigger] commands[i], image),
    ensures
        states_of(track_of(commands, image)) == without_repeats(declared_states(commands, image)),
        coalesced(track_of(commands, image)),
        barriers_of(recorded(commands, commands.len() as int), image) == barriers_through::<'a>(
            described(images_of(commands), image),
            without_repeats(declared_states(commands, image)),
        ),
        forall|j: int|
            0 <= j < without_repeats(declared_states(commands, image)).len() - 1
                ==> without_repeats(declared_states(commands, image))[j] != (
            #[trigger] without_repeats(declared_states(commands, image))[j + 1]),
        barriers_of(recorded(commands, commands.len() as int), image).len() == (if without_repeats(
            declared_states(commands, image),
        ).len() == 0 {
            0
        } else {
            without_repeats(declared_states(commands, image)).len() - 1
        }),
{
    let states = without_repeats(declared_states(commands, image));
    let track = track_of(commands, image);
    assert(commands.take(commands.len() as int) =~= commands);
    lemma_track_grows(commands, 0, commands.len() as int, image);
    lemma_barrier_count_upto(commands, commands.len() as int, image);
    lemma_barriers_through_upto(commands, commands.len() as int, image);
    lemma_track_is_declared(commands, image);
    lemma_images_of(commands, image);
    if !has_image(images_of(commands), image) {
        assert(barriers_through::<'a>(described(images_of(commands), image), states) =~= Seq::<
            DeviceCommand<'a>,
        >::empty());
    }
    assert forall|j: int| 0 <= j < states.len() - 1 implies states[j] != #[trigger] states[j
        + 1] by {
        assert(states[j] == track[j].1);
        assert(states[j + 1] == track[j + 1].1);
        assert(track[j + 1 - 1].1 != track[j + 1].1);
    }
}

proof fn lemma_barriers_through_upto<'a>(commands: Seq<GpuCommand<'a>>, n: int, image: u64)
    requires
        0 <= n <= commands.len(),
        commands.len() <= usize::MAX,
        forall|i: int| 0 <= i < commands.len() ==> mentions_once(#[trigger] commands[i], image),
    ensures
        has_image(images_of(commands), image) ==> barriers_of(recorded(commands, n), image)
            == barriers_through::<'a>(
            described(images_of(commands), image),
            states_of(track_upto(commands, n, image)),
        ),
        !has_image(images_of(commands), image) ==> barriers_of(recorded(commands, n), image)
            == Seq::<DeviceCommand<'a>>::empty(),
    decreases n,
{
    let images = images_of(commands);
    if n == 0 {
        assert(commands.take(0) =~= Seq::<GpuCommand>::empty());
        assert(barriers_through::<'a>(
            described(images, image),
            states_of(track_upto(commands, 0, image)),
        ) =~= Seq::<DeviceCommand<'a>>::empty());
    } else {
        let before = track_upto(commands, n - 1, image);
        let after = track_upto(commands, n, image);
        assert(commands.take(commands.len() as int) =~= commands);
        lemma_barriers_through_upto(commands, n - 1, image);
        lemma_recorded_barriers(commands, n - 1, image);
        lemma_track_step(commands, n - 1, image);
        assert(mentions_once(commands[n - 1], image));
        lemma_single_mention(before, (n - 1) as usize, commands[n - 1].transitions(), image);
        lemma_images_of(commands, image);
        lemma_track_grows(commands, n - 1, n, image);
        if has_image(images, image) {
            let description = described(images, image);
            lemma_barrier_is_local(commands, n - 1, commands.len() as int, description);
            let local = local_barrier::<'a>(description, before, after, (n - 1) as usize);
            assert forall|p: int| 0 <= p < before.len() implies after[p] == #[trigger] before[p] by {
                assert(after.take(before.len() as int)[p] == after[p]);
            }
            assert(barriers_through::<'a>(description, states_of(after)) =~= barriers_through::<
                'a,
            >(description, states_of(before)) + barrier_stream(local));
        } else {
            assert(barriers_of(recorded(commands, n - 1), image) + Seq::<
                DeviceCommand<'a>,
            >::empty() =~= barriers_of(recorded(commands, n - 1), image));
        }
    }
}

proof fn lemma_barrier_count_upto<'a>(commands: Seq<GpuCommand<'a>>, n: int, image: u64)
    requires
        0 <= n <= commands.len(),
        commands.len() <= usize::MAX,
        forall|i: int| 0 <= i < commands.len() ==> mentions_once(#[trigger] commands[i], image),
    ensures
        barriers_of(recorded(commands, n), image).len() == (if track_upto(commands, n, image).len()
            == 0 {
            0
        } else {
            track_upto(commands, n, image).len() - 1
        }),
    decreases n,
{
    if n > 0 {
        let images = images_of(commands);
        let before = track_upto(commands, n - 1, image);
        let after = track_upto(commands, n, image);
        assert(commands.take(commands.len() as int) =~= commands);
        lemma_barrier_count_upto(commands, n - 1, image);
        lemma_recorded_barriers(commands, n - 1, image);
        lemma_track_step(commands, n - 1, image);
        assert(mentions_once(commands[n - 1], image));
        lemma_single_mention(before, (n - 1) as usize, commands[n - 1].transitions(), image);
        lemma_images_of(commands, image);
        lemma_track_grows(commands, n, commands.len() as int, image);
        if has_image(images, image) {
            lemma_barrier_is_local(
                commands,
                n - 1,
                commands.len() as int,
                images[slot_of(images, image)],
            );
            lemma_track_grows(commands, n - 1, n, image);
        }
    }
}

/// For every command list and every image, the stream holds fewer barriers on the
/// image than the image's track holds states: no state is entered twice, and the
/// first is not entered at all.
pub proof fn lemma_fewer_barriers_than_states<'a>(commands: Seq<GpuCommand<'a>>, image: u64)
    requires
        commands.len() <= usize::MAX,
    ensures
        track_of(commands, image).len() == 0 ==> barriers_of(
            recorded(commands, commands.len() as int),
            image,
        ).len() == 0,
        track_of(commands, image).len() > 0 ==> barriers_of(
            recorded(commands, commands.len() as int),
            image,
        ).len() < track_of(commands, image).len(),
{
    assert(commands.take(commands.len() as int) =~= commands);
    lemma_barrier_bound_upto(commands, commands.len() as int, image);
}

proof fn lemma_barrier_bound_upto<'a>(commands: Seq<GpuCommand<'a>>, n: int, image: u64)
    requires
        0 <= n <= commands.len(),
        commands.len() <= usize::MAX,
    ensures
        barriers_of(recorded(commands, n), image).len() <= (if track_upto(commands, n, image).len()
            == 0 {
            0
        } else {
            track_upto(commands, n, image).len() - 1
        }),
    decreases n,
{
    if n > 0 {
        let images = images_of(commands);
        assert(commands.take(commands.len() as int) =~= commands);
        lemma_barrier_bound_upto(commands, n - 1, image);
        lemma_recorded_barriers(commands, n - 1, image);
        lemma_track_step(commands, n - 1, image);
        lemma_images_of(commands, image);
        lemma_track_grows(commands, n, commands.len() as int, image);
        lemma_track_grows(commands, n - 1, n, image);
        if has_image(images, image) {
            lemma_barrier_is_local(
                commands,
                n - 1,
                commands.len() as int,
                images[slot_of(images, image)],
            );
        }
    }
}

/// The stream without its barriers.
pub open spec fn without_barriers<'a>(stream: Seq<DeviceCommand<'a>>) -> Seq<DeviceCommand<'a>>
    decreases stream.len(),
{
    if stream.len() == 0 {
        Seq::empty()
    } else {
        let rest = without_barriers(stream.drop_last());
        if stream.last() is PipelineBarrier {
            rest
        } else {
            rest.push(stream.last())
        }
    }
}

/// The device commands that the first `n` commands of the list stand for, on end.
pub open spec fn own_commands<'a>(commands: Seq<GpuCommand<'a>>, n: int) -> Seq<DeviceCommand<'a>>
    decreases n,
{
    if n <= 0 {
        Seq::empty()
    } else {
        own_commands(commands, n - 1) + commands[n - 1].device_commands()
    }
}

proof fn lemma_without_barriers_add<'a>(first: Seq<DeviceCommand<'a>>, second: Seq<DeviceCommand<'a>>)
    ensures
        without_barriers(first + second) == without_barriers(first) + without_barriers(second),
    decreases second.len(),
{
    if second.len() == 0 {
        assert(first + second =~= first);
        assert(without_barriers(first) + without_barriers(second) =~= without_barriers(first));
    } else {
        assert((first + second).drop_last() =~= first + second.drop_last());
        lemma_without_barriers_add(first, second.drop_last());
        assert(without_barriers(first + second) =~= without_barriers(first) + without_barriers(
            second,
        ));
    }
}

proof fn lemma_without_barriers_same<'a>(stream: Seq<DeviceCommand<'a>>)
    requires
        forall|k: int| 0 <= k < stream.len() ==> !((#[trigger] stream[k]) is PipelineBarrier),
    ensures
        without_barriers(stream) == stream,
    decreases stream.len(),
{
    if stream.len() > 0 {
        assert forall|k: int| 0 <= k < stream.drop_last().len() implies !((
        #[trigger] stream.drop_last()[k]) is PipelineBarrier) by {
            assert(stream.drop_last()[k] == stream[k]);
        }
        lemma_without_barriers_same(stream.drop_last());
        assert(stream.drop_last().push(stream.last()) =~= stream);
    }
}

proof fn lemma_barriers_only<'a>(
    images: Seq<Image2d>,
    commands: Seq<GpuCommand<'a>>,
    command_idx: usize,
)
    ensures
        without_barriers(barriers_before(images, commands, command_idx)) == Seq::<
            DeviceCommand<'a>,
        >::empty(),
    decreases images.len(),
{
    if images.len() > 0 {
        lemma_barriers_only(images.drop_last(), commands, command_idx);
        let rest = barriers_before(images.drop_last(), commands, command_idx);
        let last = barrier_for::<'a>(
            images.last(),
            track_of(commands, images.last().image),
            command_idx,
        );
        if last is Some {
            assert(rest.push(last->0).drop_last() =~= rest);
        }
    }
}

/// Recording adds barriers and nothing else: the stream without its barriers is
/// what the commands stand for, in the order of the list. Each command's device
/// commands are in the stream as they are and stay together; the barriers that a
/// command needs stand right before them.
pub proof fn lemma_commands_pass_through<'a>(commands: Seq<GpuCommand<'a>>, n: int)
    requires
        0 <= n <= commands.len(),
    ensures
        without_barriers(recorded(commands, n)) == own_commands(commands, n),
    decreases n,
{
    if n > 0 {
        lemma_commands_pass_through(commands, n - 1);
        let head = recorded(commands, n - 1);
        let barriers = barriers_before(images_of(commands), commands, (n - 1) as usize);
        let own = commands[n - 1].device_commands();
        lemma_barriers_only(images_of(commands), commands, (n - 1) as usize);
        lemma_without_barriers_same(own);
        lemma_without_barriers_add(head + barriers, own);
        lemma_without_barriers_add(head, barriers);
        assert(without_barriers(head) + Seq::<DeviceCommand<'a>>::empty() =~= without_barriers(
            head,
        ));
    }
}

} // verus!
