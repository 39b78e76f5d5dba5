//! Images do not interfere: what the recorder emits for one image does not depend
//! on the commands that are about another.

use vstd::prelude::*;
use crate::barrier_laws::{
    barrier_stream, barriers_of, described, distinct_handles, lemma_barrier_is_local, lemma_command_shape,
    lemma_images_in_command, lemma_images_of, lemma_push_shape, lemma_recorded_barriers,
    lemma_track_grows, lemma_track_step, local_barrier, mentions, slot_of, track_upto,
};
use crate::command::{DeviceCommand, GpuCommand, ImageTransitionInfo};
use crate::image::{Image2d, ImageAccess};
use crate::recorder::{
    barriers_before, has_image, images_in_command, images_of, recorded,
    track_in_command, track_of, track_push,
};

verus! {

/// The list without the commands that declare a state for the image with handle
/// `image`.
pub open spec fn without(commands: Seq<GpuCommand>, image: u64) -> Seq<GpuCommand>
    decreases commands.len(),
{
    if commands.len() == 0 {
        Seq::empty()
    } else {
        let rest = without(commands.drop_last(), image);
        if mentions(commands.last(), image) {
            rest
        } else {
            rest.push(commands.last())
        }
    }
}

/// How many of the first `n` commands stay when those about `image` are taken out:
/// the place of the command at `n`, if it stays, in the shorter list.
pub open spec fn kept_before(commands: Seq<GpuCommand>, image: u64, n: int) -> int {
    without(commands.take(n), image).len() as int
}

/// Taking commands out of the beginning of a list is the beginning of taking them
/// out of the list.
pub proof fn lemma_without_take(commands: Seq<GpuCommand>, image: u64, n: int)
    requires
        0 <= n <= commands.len(),
    ensures
        kept_before(commands, image, n) <= n,
        kept_before(commands, image, n) <= without(commands, image).len(),
        without(commands, image).take(kept_before(commands, image, n)) == without(
            commands.take(n),
            image,
        ),
        n < commands.len() && !mentions(commands[n], image) ==> kept_before(commands, image, n)
            < without(commands, image).len() && without(commands, image)[kept_before(
            commands,
            image,
            n,
        )] == commands[n] && kept_before(commands, image, n + 1) == kept_before(
            commands,
            image,
            n,
        ) + 1,
        n < commands.len() && mentions(commands[n], image) ==> kept_before(commands, image, n + 1)
            == kept_before(commands, image, n),
    decreases commands.len() - n,
{
    let reduced = without(commands, image);
    if n == commands.len() {
        assert(commands.take(n) =~= commands);
        assert(reduced.take(reduced.len() as int) =~= reduced);
        lemma_without_len(commands, image);
    } else {
        lemma_without_take(commands, image, n + 1);
        let longer = commands.take(n + 1);
        assert(longer.drop_last() =~= commands.take(n));
        assert(longer.last() == commands[n]);
        let kept = kept_before(commands, image, n);
        lemma_without_len(commands.take(n), image);
        if mentions(commands[n], image) {
        } else {
            assert(without(longer, image) == without(commands.take(n), image).push(commands[n]));
            assert(reduced.take(kept + 1)[kept] == reduced[kept]);
            assert(reduced.take(kept) =~= reduced.take(kept + 1).take(kept));
            assert(without(commands.take(n), image).push(commands[n]).take(kept)
                =~= without(commands.take(n), image));
        }
    }
}

proof fn lemma_without_len(commands: Seq<GpuCommand>, image: u64)
    ensures
        without(commands, image).len() <= commands.len(),
    decreases commands.len(),
{
    if commands.len() > 0 {
        lemma_without_len(commands.drop_last(), image);
    }
}

/// Two tracks hold the same states, place by place.
pub open spec fn same_states(first: Seq<(usize, ImageAccess)>, second: Seq<(usize, ImageAccess)>) -> bool {
    &&& first.len() == second.len()
    &&& forall|p: int| 0 <= p < first.len() ==> (#[trigger] first[p]).1 == second[p].1
}

/// Two tracks hold the same states, and what they hold from `from` on is due as
/// far after `first_idx` in the one as after `second_idx` in the other.
pub open spec fn same_states_shifted(
    first: Seq<(usize, ImageAccess)>,
    first_idx: usize,
    second: Seq<(usize, ImageAccess)>,
    second_idx: usize,
    from: int,
) -> bool {
    &&& same_states(first, second)
    &&& forall|p: int|
        from <= p < first.len() ==> (#[trigger] first[p]).0 - first_idx == second[p].0 - second_idx
}

proof fn lemma_command_shifted(
    first: Seq<(usize, ImageAccess)>,
    first_idx: usize,
    second: Seq<(usize, ImageAccess)>,
    second_idx: usize,
    transitions: Seq<ImageTransitionInfo>,
    image: u64,
)
    requires
        first_idx < usize::MAX,
        second_idx < usize::MAX,
        same_states(first, second),
    ensures
        same_states_shifted(
            track_in_command(first, first_idx, transitions, image),
            first_idx,
            track_in_command(second, second_idx, transitions, image),
            second_idx,
            first.len() as int,
        ),
    decreases transitions.len(),
{
    if transitions.len() > 0 {
        let earlier = transitions.drop_last();
        lemma_command_shifted(first, first_idx, second, second_idx, earlier, image);
        let first_before = track_in_command(first, first_idx, earlier, image);
        let second_before = track_in_command(second, second_idx, earlier, image);
        if transitions.last().image.image == image {
            lemma_push_shape(first_before, first_idx, transitions.last());
            lemma_push_shape(second_before, second_idx, transitions.last());
            lemma_command_shape(first, first_idx, earlier, image);
            lemma_command_shape(second, second_idx, earlier, image);
            let first_after = track_push(first_before, first_idx, transitions.last());
            let second_after = track_push(second_before, second_idx, transitions.last());
            assert forall|p: int| 0 <= p < first_before.len() implies first_after[p]
                == first_before[p] && second_after[p] == second_before[p] by {
                assert(first_after.take(first_before.len() as int)[p] == first_after[p]);
                assert(second_after.take(second_before.len() as int)[p] == second_after[p]);
            }
        }
    }
}

proof fn lemma_described_in_command(
    first: Seq<Image2d>,
    second: Seq<Image2d>,
    transitions: Seq<ImageTransitionInfo>,
    image: u64,
)
    requires
        distinct_handles(first),
        distinct_handles(second),
        has_image(first, image) == has_image(second, image),
        has_image(first, image) ==> described(first, image) == described(second, image),
    ensures
        has_image(images_in_command(first, transitions), image) == has_image(
            images_in_command(second, transitions),
            image,
        ),
        has_image(images_in_command(first, transitions), image) ==> described(
            images_in_command(first, transitions),
            image,
        ) == described(images_in_command(second, transitions), image),
    decreases transitions.len(),
{
    if transitions.len() > 0 {
        let earlier = transitions.drop_last();
        lemma_described_in_command(first, second, earlier, image);
        let first_before = images_in_command(first, earlier);
        let second_before = images_in_command(second, earlier);
        let first_after = images_in_command(first, transitions);
        let second_after = images_in_command(second, transitions);
        lemma_images_in_command(first, earlier, image);
        lemma_images_in_command(second, earlier, image);
        lemma_images_in_command(first, transitions, image);
        lemma_images_in_command(second, transitions, image);
        lemma_described_push(first_before, *transitions.last().image, image);
        lemma_described_push(second_before, *transitions.last().image, image);
    }
}

proof fn lemma_described_push(images: Seq<Image2d>, added: Image2d, image: u64)
    requires
        distinct_handles(images),
    ensures
        has_image(images, image) ==> has_image(images.push(added), image),
        has_image(images, image) && !has_image(images, added.image) ==> described(
            images.push(added),
            image,
        ) == described(images, image),
        !has_image(images, image) && added.image == image ==> has_image(images.push(added), image)
            && described(images.push(added), image) == added,
        !has_image(images, image) && added.image != image ==> !has_image(
            images.push(added),
            image,
        ),
{
    let longer = images.push(added);
    if has_image(images, image) {
        let s = slot_of(images, image);
        assert(longer[s].image == image);
        if !has_image(images, added.image) {
            let t = slot_of(longer, image);
            if t == images.len() {
                assert(added.image == image);
            } else {
                assert(images[t].image == image);
            }
        }
    } else if added.image == image {
        assert(longer[images.len() as int].image == image);
        let t = slot_of(longer, image);
        if t < images.len() {
            assert(images[t].image == image);
        }
    } else {
        if has_image(longer, image) {
            let t = choose|t: int| 0 <= t < longer.len() && longer[t].image == image;
            assert(images[t].image == image);
        }
    }
}

/// No command of the list declares states for both images.
pub open spec fn independent(commands: Seq<GpuCommand>, image: u64, other: u64) -> bool {
    forall|i: int|
        0 <= i < commands.len() ==> !(mentions(#[trigger] commands[i], image) && mentions(
            commands[i],
            other,
        ))
}

proof fn lemma_unmentioned(command: GpuCommand, image: u64)
    requires
        !mentions(command, image),
    ensures
        forall|j: int|
            0 <= j < command.transitions().len() ==> command.transitions()[j].image.image != image,
{
    assert forall|j: int| 0 <= j < command.transitions().len() implies command.transitions()[j].image.image
        != image by {
        if command.transitions()[j].image.image == image {
            assert(mentions(command, image));
        }
    }
}

/// The track of an image and its description are the same, but for where the
/// states are due, in the list without the commands about another image.
proof fn lemma_same_track<'a>(commands: Seq<GpuCommand<'a>>, image: u64, other: u64, n: int)
    requires
        0 <= n <= commands.len(),
        commands.len() <= usize::MAX,
        independent(commands, image, other),
    ensures
        same_states(
            track_upto(commands, n, image),
            track_of(without(commands.take(n), other), image),
        ),
        has_image(images_of(commands.take(n)), image) == has_image(
            images_of(without(commands.take(n), other)),
            image,
        ),
        has_image(images_of(commands.take(n)), image) ==> described(
            images_of(commands.take(n)),
            image,
        ) == described(images_of(without(commands.take(n), other)), image),
    decreases n,
{
    if n == 0 {
        assert(commands.take(0) =~= Seq::<GpuCommand>::empty());
    } else {
        lemma_same_track(commands, image, other, n - 1);
        lemma_track_step(commands, n - 1, image);
        let shorter = commands.take(n - 1);
        let longer = commands.take(n);
        let command = commands[n - 1];
        assert(longer.drop_last() =~= shorter);
        assert(longer.last() == command);
        let reduced = without(shorter, other);
        lemma_without_len(shorter, other);
        lemma_images_of(shorter, image);
        lemma_images_of(reduced, image);
        if mentions(command, other) {
            assert(!mentions(command, image));
            lemma_unmentioned(command, image);
            lemma_command_shape(
                track_upto(commands, n - 1, image),
                (n - 1) as usize,
                command.transitions(),
                image,
            );
            lemma_images_in_command(images_of(shorter), command.transitions(), image);
            let images = images_of(shorter);
            let after = images_of(longer);
            if has_image(images, image) {
                let s = slot_of(images, image);
                assert(after.take(images.len() as int)[s] == after[s]);
                let t = slot_of(after, image);
                assert(after[s].image == after[t].image);
                lemma_images_of(longer, image);
            }
        } else {
            let kept = reduced.push(command);
            assert(without(longer, other) == kept);
            assert(kept.drop_last() =~= reduced);
            assert(kept.last() == command);
            lemma_command_shifted(
                track_upto(commands, n - 1, image),
                (n - 1) as usize,
                track_of(reduced, image),
                reduced.len() as usize,
                command.transitions(),
                image,
            );
            lemma_described_in_command(
                images_of(shorter),
                images_of(reduced),
                command.transitions(),
                image,
            );
        }
    }
}

/// The barriers before the command at `command_idx` that are on `image`.
pub open spec fn image_barriers_before<'a>(
    commands: Seq<GpuCommand<'a>>,
    command_idx: int,
    image: u64,
) -> Seq<DeviceCommand<'a>> {
    barriers_of(barriers_before(images_of(commands), commands, command_idx as usize), image)
}

proof fn lemma_image_barriers_local<'a>(commands: Seq<GpuCommand<'a>>, command_idx: int, image: u64)
    requires
        0 <= command_idx < commands.len(),
        commands.len() <= usize::MAX,
    ensures
        image_barriers_before(commands, command_idx, image) == (if has_image(
            images_of(commands),
            image,
        ) {
            barrier_stream(
                local_barrier::<'a>(
                    described(images_of(commands), image),
                    track_upto(commands, command_idx, image),
                    track_upto(commands, command_idx + 1, image),
                    command_idx as usize,
                ),
            )
        } else {
            seq![]
        }),
        !has_image(images_of(commands), image) ==> track_upto(commands, command_idx + 1, image).len()
            == 0,
{
    let images = images_of(commands);
    lemma_images_of(commands, image);
    crate::barrier_laws::lemma_barriers_before_of(images, commands, command_idx as usize, image);
    assert(commands.take(commands.len() as int) =~= commands);
    if has_image(images, image) {
        lemma_barrier_is_local(commands, command_idx, commands.len() as int, described(images, image));
    } else {
        lemma_track_grows(commands, command_idx + 1, commands.len() as int, image);
    }
}

/// The barriers before one command on one image are the same, in the list and in
/// the list without the commands about another image; before a command about the
/// other image there is none.
pub proof fn lemma_same_barriers_before<'a>(
    commands: Seq<GpuCommand<'a>>,
    image: u64,
    other: u64,
    command_idx: int,
)
    requires
        0 <= command_idx < commands.len(),
        commands.len() <= usize::MAX,
        independent(commands, image, other),
    ensures
        mentions(commands[command_idx], other) ==> image_barriers_before(
            commands,
            command_idx,
            image,
        ) == Seq::<DeviceCommand<'a>>::empty(),
        !mentions(commands[command_idx], other) ==> {
            &&& 0 <= kept_before(commands, other, command_idx) < without(commands, other).len()
            &&& without(commands, other)[kept_before(commands, other, command_idx)]
                == commands[command_idx]
            &&& image_barriers_before(commands, command_idx, image) == image_barriers_before(
                without(commands, other),
                kept_before(commands, other, command_idx),
                image,
            )
        },
{
    let reduced = without(commands, other);
    let kept = kept_before(commands, other, command_idx);
    let command = commands[command_idx];
    lemma_image_barriers_local(commands, command_idx, image);
    lemma_without_take(commands, other, command_idx);
    lemma_without_len(commands, other);
    lemma_track_step(commands, command_idx, image);
    let before = track_upto(commands, command_idx, image);
    let after = track_upto(commands, command_idx + 1, image);
    lemma_track_grows(commands, command_idx, command_idx + 1, image);
    if mentions(command, other) {
        assert(!mentions(command, image));
        lemma_unmentioned(command, image);
        lemma_command_shape(before, command_idx as usize, command.transitions(), image);
        assert(after == before);
    } else {
        lemma_image_barriers_local(reduced, kept, image);
        lemma_without_take(commands, other, command_idx + 1);
        // the tracks and the descriptions correspond
        lemma_same_track(commands, image, other, command_idx);
        lemma_same_track(commands, image, other, commands.len() as int);
        assert(commands.take(commands.len() as int) =~= commands);
        let reduced_before = track_upto(reduced, kept, image);
        let reduced_after = track_upto(reduced, kept + 1, image);
        lemma_track_step(reduced, kept, image);
        assert(reduced[kept] == command);
        lemma_command_shifted(
            before,
            command_idx as usize,
            reduced_before,
            kept as usize,
            command.transitions(),
            image,
        );
        assert(same_states_shifted(
            after,
            command_idx as usize,
            reduced_after,
            kept as usize,
            before.len() as int,
        ));
        if has_image(images_of(commands), image) {
            let description = described(images_of(commands), image);
            assert(description == described(images_of(reduced), image));
            if before.len() >= 1 {
                if after.len() > before.len() {
                    assert(before.last().1 == reduced_before.last().1);
                    assert(after[before.len() as int].1 == reduced_after[before.len() as int].1);
                }
            } else if after.len() >= 2 {
                assert(after[0].0 - command_idx == reduced_after[0].0 - kept);
                assert(after[0].1 == reduced_after[0].1);
                assert(after[1].1 == reduced_after[1].1);
            }
        }
    }
}

/// For two images that no command is about both of: taking the commands about the
/// one out of the list changes neither the number nor the order nor the place of
/// the barriers on the other. The streams hold the same barriers on it, in the
/// same order, and each stands before the same command.
pub proof fn lemma_no_interference<'a>(commands: Seq<GpuCommand<'a>>, image: u64, other: u64)
    requires
        commands.len() <= usize::MAX,
        independent(commands, image, other),
    ensures
        barriers_of(
            recorded(without(commands, other), without(commands, other).len() as int),
            image,
        ) == barriers_of(recorded(commands, commands.len() as int), image),
        forall|i: int|
            0 <= i < commands.len() && mentions(#[trigger] commands[i], other)
                ==> image_barriers_before(commands, i, image) == Seq::<DeviceCommand<'a>>::empty(),
        forall|i: int|
            0 <= i < commands.len() && !mentions(#[trigger] commands[i], other) ==> {
                &&& 0 <= kept_before(commands, other, i) < without(commands, other).len()
                &&& without(commands, other)[kept_before(commands, other, i)] == commands[i]
                &&& image_barriers_before(commands, i, image) == image_barriers_before(
                    without(commands, other),
                    kept_before(commands, other, i),
                    image,
                )
            },
{
    assert forall|i: int|
        0 <= i < commands.len() && mentions(
            #[trigger] commands[i],
            other,
        ) implies image_barriers_before(commands, i, image) == Seq::<DeviceCommand<'a>>::empty() by {
        lemma_same_barriers_before(commands, image, other, i);
    }
    assert forall|i: int|
        0 <= i < commands.len() && !mentions(#[trigger] commands[i], other) implies {
        &&& 0 <= kept_before(commands, other, i) < without(commands, other).len()
        &&& without(commands, other)[kept_before(commands, other, i)] == commands[i]
        &&& image_barriers_before(commands, i, image) == image_barriers_before(
            without(commands, other),
            kept_before(commands, other, i),
            image,
        )
    } by {
        lemma_same_barriers_before(commands, image, other, i);
    }
    lemma_same_stream(commands, image, other, commands.len() as int);
    assert(commands.take(commands.len() as int) =~= commands);
}

proof fn lemma_same_stream<'a>(commands: Seq<GpuCommand<'a>>, image: u64, other: u64, n: int)
    requires
        0 <= n <= commands.len(),
        commands.len() <= usize::MAX,
        independent(commands, image, other),
    ensures
        barriers_of(
            recorded(without(commands, other), kept_before(commands, other, n)),
            image,
        ) == barriers_of(recorded(commands, n), image),
    decreases n,
{
    let reduced = without(commands, other);
    if n == 0 {
        assert(commands.take(0) =~= Seq::<GpuCommand>::empty());
    } else {
        lemma_same_stream(commands, image, other, n - 1);
        lemma_same_barriers_before(commands, image, other, n - 1);
        lemma_without_take(commands, other, n - 1);
        lemma_without_len(commands, other);
        lemma_recorded_barriers(commands, n - 1, image);
        let kept = kept_before(commands, other, n - 1);
        if mentions(commands[n - 1], other) {
            assert(barriers_of(recorded(commands, n - 1), image) + Seq::<
                DeviceCommand<'a>,
            >::empty() =~= barriers_of(recorded(commands, n - 1), image));
        } else {
            lemma_recorded_barriers(reduced, kept, image);
        }
    }
}

} // verus!
