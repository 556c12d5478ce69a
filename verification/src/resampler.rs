//! Channel mapping and sample-position planning for linear resampling.
//!
//! Standard layouts are mapped by speaker role: mono output averages all
//! input channels, stereo and 2.1 downmixes preserve the left and right
//! families, and wider standard layouts synthesize only missing roles from
//! their nearest available speaker. Discrete layouts keep an index-based
//! fallback. This module decides which input channels feed each output
//! channel and where each output frame falls between two input frames; the
//! arithmetic on sample values is left to the caller.
use vstd::prelude::*;

use crate::buffer::{checked_buffer_result, AudioBuffer};
use crate::error::AudioError;
use crate::timestamp::Timestamp;
use crate::types::{AudioChannelLayout, AudioFormat, MAX_AUDIO_FRAMES};

verus! {

broadcast use AudioFormat::lemma_wf;

/// The speaker that one channel of a standard layout drives.
#[derive(Clone, Copy, Debug, PartialEq, Eq, Structural)]
pub enum ChannelRole {
    Left,
    Right,
    Center,
    Lfe,
    BackLeft,
    BackRight,
    SideLeft,
    SideRight,
}

/// The speaker role of each channel of a standard layout, in channel order.
pub open spec fn spec_standard_roles(layout: AudioChannelLayout) -> Option<Seq<ChannelRole>> {
    match layout {
        AudioChannelLayout::Mono => Some(seq![ChannelRole::Center]),
        AudioChannelLayout::Stereo => Some(seq![ChannelRole::Left, ChannelRole::Right]),
        AudioChannelLayout::TwoPointOne => Some(
            seq![ChannelRole::Left, ChannelRole::Right, ChannelRole::Lfe],
        ),
        AudioChannelLayout::Quad => Some(
            seq![ChannelRole::Left, ChannelRole::Right, ChannelRole::BackLeft, ChannelRole::BackRight],
        ),
        AudioChannelLayout::FivePointOne => Some(
            seq![
                ChannelRole::Left,
                ChannelRole::Right,
                ChannelRole::Center,
                ChannelRole::Lfe,
                ChannelRole::SideLeft,
                ChannelRole::SideRight,
            ],
        ),
        AudioChannelLayout::SevenPointOne => Some(
            seq![
                ChannelRole::Left,
                ChannelRole::Right,
                ChannelRole::Center,
                ChannelRole::Lfe,
                ChannelRole::BackLeft,
                ChannelRole::BackRight,
                ChannelRole::SideLeft,
                ChannelRole::SideRight,
            ],
        ),
        AudioChannelLayout::Discrete(_) => None,
    }
}

/// A standard layout names one role per channel.
pub proof fn lemma_roles_cover_channels(layout: AudioChannelLayout)
    ensures
        spec_standard_roles(layout) matches Some(roles) ==> roles.len()
            == layout.spec_channels(),
{
}

/// Returns the speaker roles of a standard layout, or `None` for a discrete
/// layout.
pub fn standard_roles(layout: AudioChannelLayout) -> (roles: Option<Vec<ChannelRole>>)
    ensures
        match roles {
            Some(roles) => spec_standard_roles(layout) == Some(roles@),
            None => spec_standard_roles(layout) is None,
        },
{
    let roles = match layout {
        AudioChannelLayout::Mono => vec![ChannelRole::Center],
        AudioChannelLayout::Stereo => vec![ChannelRole::Left, ChannelRole::Right],
        AudioChannelLayout::TwoPointOne => vec![
            ChannelRole::Left,
            ChannelRole::Right,
            ChannelRole::Lfe,
        ],
        AudioChannelLayout::Quad => vec![
            ChannelRole::Left,
            ChannelRole::Right,
            ChannelRole::BackLeft,
            ChannelRole::BackRight,
        ],
        AudioChannelLayout::FivePointOne => vec![
            ChannelRole::Left,
            ChannelRole::Right,
            ChannelRole::Center,
            ChannelRole::Lfe,
            ChannelRole::SideLeft,
            ChannelRole::SideRight,
        ],
        AudioChannelLayout::SevenPointOne => vec![
            ChannelRole::Left,
            ChannelRole::Right,
            ChannelRole::Center,
            ChannelRole::Lfe,
            ChannelRole::BackLeft,
            ChannelRole::BackRight,
            ChannelRole::SideLeft,
            ChannelRole::SideRight,
        ],
        AudioChannelLayout::Discrete(_) => {
            return None;
        },
    };
    proof {
        assert(roles@ =~= spec_standard_roles(layout)->0);
    }
    Some(roles)
}

/// Whether `i` is the first channel of `roles` that carries `role`.
pub open spec fn is_first_position(roles: Seq<ChannelRole>, role: ChannelRole, i: int) -> bool {
    &&& 0 <= i < roles.len()
    &&& roles[i] == role
    &&& forall|j: int| 0 <= j < i ==> roles[j] != role
}

/// The first channel of `roles` that carries `role`, if any does.
pub open spec fn role_position(roles: Seq<ChannelRole>, role: ChannelRole) -> Option<int> {
    if exists|i: int| is_first_position(roles, role, i) {
        Some(choose|i: int| is_first_position(roles, role, i))
    } else {
        None
    }
}

/// Returns the first channel of `roles` that carries `role`.
pub fn find_role(roles: &Vec<ChannelRole>, role: ChannelRole) -> (position: Option<usize>)
    ensures
        match position {
            Some(i) => role_position(roles@, role) == Some(i as int),
            None => role_position(roles@, role) is None,
        },
        role_position(roles@, role) is None <==> !roles@.contains(role),
{
    let mut i: usize = 0;
    while i < roles.len()
        invariant
            i <= roles@.len(),
            forall|j: int| 0 <= j < i ==> roles@[j] != role,
        decreases roles@.len() - i,
    {
        if roles[i] == role {
            proof {
                assert(is_first_position(roles@, role, i as int));
                let k = choose|k: int| is_first_position(roles@, role, k);
                assert(is_first_position(roles@, role, k));
                if k < i {
                    assert(roles@[k] != role);
                } else if k > i {
                    assert(roles@[i as int] != role);
                }
                assert(roles@.contains(role));
            }
            return Some(i);
        }
        i = i + 1;
    }
    proof {
        assert forall|k: int| !is_first_position(roles@, role, k) by {
            if 0 <= k < roles@.len() {
                assert(roles@[k] != role);
            }
        }
        assert(!roles@.contains(role));
    }
    None
}

/// Positions, in candidate order, of the candidates that `roles` carries.
pub open spec fn present_positions(roles: Seq<ChannelRole>, candidates: Seq<ChannelRole>) -> Seq<
    usize,
>
    decreases candidates.len(),
{
    if candidates.len() == 0 {
        seq![]
    } else {
        let earlier = present_positions(roles, candidates.drop_last());
        match role_position(roles, candidates.last()) {
            Some(p) => earlier.push(p as usize),
            None => earlier,
        }
    }
}

/// Every present position is a channel of `roles`.
pub proof fn lemma_present_positions_in_range(
    roles: Seq<ChannelRole>,
    candidates: Seq<ChannelRole>,
)
    ensures
        forall|i: int|
            0 <= i < present_positions(roles, candidates).len() ==> #[trigger] present_positions(
                roles,
                candidates,
            )[i] < roles.len(),
    decreases candidates.len(),
{
    if candidates.len() > 0 {
        let earlier = present_positions(roles, candidates.drop_last());
        lemma_present_positions_in_range(roles, candidates.drop_last());
        let role = candidates.last();
        if exists|i: int| is_first_position(roles, role, i) {
            let k = choose|i: int| is_first_position(roles, role, i);
            assert(is_first_position(roles, role, k));
            let all = earlier.push(k as usize);
            assert forall|i: int| 0 <= i < all.len() implies #[trigger] all[i] < roles.len() by {
                if i < earlier.len() {
                    assert(all[i] == earlier[i]);
                }
            }
        }
    }
}

/// Returns the positions, in candidate order, of the candidates that `roles`
/// carries.
pub fn find_present(roles: &Vec<ChannelRole>, candidates: &Vec<ChannelRole>) -> (found: Vec<
    usize,
>)
    ensures
        found@ == present_positions(roles@, candidates@),
{
    let mut found: Vec<usize> = Vec::new();
    let mut i: usize = 0;
    while i < candidates.len()
        invariant
            i <= candidates@.len(),
            found@ == present_positions(roles@, candidates@.subrange(0, i as int)),
        decreases candidates@.len() - i,
    {
        let ghost before = candidates@.subrange(0, i as int);
        let ghost after = candidates@.subrange(0, i as int + 1);
        assert(after.drop_last() =~= before);
        assert(after.last() == candidates@[i as int]);
        match find_role(roles, candidates[i]) {
            Some(p) => found.push(p),
            None => {},
        }
        i = i + 1;
    }
    assert(candidates@.subrange(0, candidates@.len() as int) =~= candidates@);
    found
}

/// The input channels that feed one output channel, and how.
#[derive(Clone, Debug, PartialEq, Eq)]
pub enum ChannelSource {
    /// The output channel is silent.
    Silent,
    /// The output channel copies one input channel.
    Channel(usize),
    /// The output channel is the sum of these input channels, in this order,
    /// divided by their count.
    Average(Vec<usize>),
    /// The output channel is the sum of all input channels, in channel order,
    /// divided by the input channel count.
    AverageAll,
}

/// The mathematical form of a [`ChannelSource`].
pub enum ChannelPlan {
    Silent,
    Channel(usize),
    Average(Seq<usize>),
    AverageAll,
}

impl View for ChannelSource {
    type V = ChannelPlan;

    open spec fn view(&self) -> ChannelPlan {
        match self {
            ChannelSource::Silent => ChannelPlan::Silent,
            ChannelSource::Channel(c) => ChannelPlan::Channel(*c),
            ChannelSource::Average(channels) => ChannelPlan::Average(channels@),
            ChannelSource::AverageAll => ChannelPlan::AverageAll,
        }
    }
}

/// The roles that a left downmix averages.
pub open spec fn left_downmix() -> Seq<ChannelRole> {
    seq![ChannelRole::Left, ChannelRole::Center, ChannelRole::BackLeft, ChannelRole::SideLeft]
}

/// The roles that a right downmix averages.
pub open spec fn right_downmix() -> Seq<ChannelRole> {
    seq![ChannelRole::Right, ChannelRole::Center, ChannelRole::BackRight, ChannelRole::SideRight]
}

/// The nearest speakers that stand in for a missing role, nearest first.
pub open spec fn fallback_roles(role: ChannelRole) -> Seq<ChannelRole> {
    match role {
        ChannelRole::Left => seq![ChannelRole::Center, ChannelRole::BackLeft, ChannelRole::SideLeft],
        ChannelRole::Right => seq![
            ChannelRole::Center,
            ChannelRole::BackRight,
            ChannelRole::SideRight,
        ],
        ChannelRole::Center => seq![ChannelRole::Left, ChannelRole::Right, ChannelRole::Center],
        ChannelRole::Lfe => seq![],
        ChannelRole::BackLeft => seq![ChannelRole::SideLeft, ChannelRole::Left, ChannelRole::Center],
        ChannelRole::BackRight => seq![
            ChannelRole::SideRight,
            ChannelRole::Right,
            ChannelRole::Center,
        ],
        ChannelRole::SideLeft => seq![ChannelRole::BackLeft, ChannelRole::Left, ChannelRole::Center],
        ChannelRole::SideRight => seq![
            ChannelRole::BackRight,
            ChannelRole::Right,
            ChannelRole::Center,
        ],
    }
}

/// How an input with speaker `roles` produces `role`: the channel that
/// carries it; otherwise silence for the LFE, the average of the front pair
/// for the center, and the nearest available speaker for any other role.
pub open spec fn spec_role_source(roles: Seq<ChannelRole>, role: ChannelRole) -> ChannelPlan {
    match role_position(roles, role) {
        Some(p) => ChannelPlan::Channel(p as usize),
        None => {
            let found = present_positions(roles, fallback_roles(role));
            if role == ChannelRole::Lfe || found.len() == 0 {
                ChannelPlan::Silent
            } else if role == ChannelRole::Center {
                ChannelPlan::Average(found)
            } else {
                ChannelPlan::Channel(found[0])
            }
        },
    }
}

/// How output channel `channel` of `output` is made from a frame of `input`.
pub open spec fn spec_channel_source(
    input: AudioChannelLayout,
    output: AudioChannelLayout,
    channel: int,
) -> ChannelPlan {
    let input_channels = input.spec_channels() as int;
    if output == AudioChannelLayout::Mono {
        ChannelPlan::AverageAll
    } else if input == output {
        if channel < input_channels {
            ChannelPlan::Channel(channel as usize)
        } else {
            ChannelPlan::Silent
        }
    } else {
        match (spec_standard_roles(input), spec_standard_roles(output)) {
            (Some(input_roles), Some(output_roles)) => {
                let role = output_roles[channel];
                if (output == AudioChannelLayout::Stereo || output == AudioChannelLayout::TwoPointOne)
                    && (role == ChannelRole::Left || role == ChannelRole::Right) {
                    let found = present_positions(
                        input_roles,
                        if role == ChannelRole::Left {
                            left_downmix()
                        } else {
                            right_downmix()
                        },
                    );
                    if found.len() > 0 {
                        ChannelPlan::Average(found)
                    } else {
                        spec_role_source(input_roles, role)
                    }
                } else {
                    spec_role_source(input_roles, role)
                }
            },
            _ => {
                let last = if input_channels > 0 {
                    input_channels - 1
                } else {
                    0
                };
                let index = if channel < last {
                    channel
                } else {
                    last
                };
                if index < input_channels {
                    ChannelPlan::Channel(index as usize)
                } else {
                    ChannelPlan::Silent
                }
            },
        }
    }
}


/// Whether a speaker stands on the right.
pub open spec fn is_right_side(role: ChannelRole) -> bool {
    role == ChannelRole::Right || role == ChannelRole::BackRight || role == ChannelRole::SideRight
}

/// Whether a speaker stands on the left.
pub open spec fn is_left_side(role: ChannelRole) -> bool {
    role == ChannelRole::Left || role == ChannelRole::BackLeft || role == ChannelRole::SideLeft
}

/// The first channel found for a role carries that role, and a role is
/// found exactly when some channel carries it.
pub proof fn lemma_role_position(roles: Seq<ChannelRole>, role: ChannelRole)
    ensures
        role_position(roles, role) matches Some(p) ==> 0 <= p < roles.len() && roles[p] == role,
        role_position(roles, role) is None <==> !roles.contains(role),
    decreases roles.len(),
{
    if roles.contains(role) {
        let i = choose|i: int| 0 <= i < roles.len() && roles[i] == role;
        if !exists|k: int| is_first_position(roles, role, k) {
            lemma_first_position_exists(roles, role, i);
        }
    }
    if exists|i: int| is_first_position(roles, role, i) {
        let k = choose|i: int| is_first_position(roles, role, i);
        assert(roles[k] == role);
    }
}

proof fn lemma_first_position_exists(roles: Seq<ChannelRole>, role: ChannelRole, i: int)
    requires
        0 <= i < roles.len(),
        roles[i] == role,
    ensures
        exists|k: int| is_first_position(roles, role, k),
    decreases i,
{
    if exists|j: int| 0 <= j < i && roles[j] == role {
        let j = choose|j: int| 0 <= j < i && roles[j] == role;
        lemma_first_position_exists(roles, role, j);
    } else {
        assert(is_first_position(roles, role, i));
    }
}

/// Every position found for a list of candidate roles is a channel that
/// carries one of the candidates.
pub proof fn lemma_present_positions_carry(roles: Seq<ChannelRole>, candidates: Seq<ChannelRole>)
    requires
        roles.len() <= usize::MAX,
    ensures
        forall|i: int|
            0 <= i < present_positions(roles, candidates).len() ==> {
                let p = #[trigger] present_positions(roles, candidates)[i];
                &&& p < roles.len()
                &&& candidates.contains(roles[p as int])
            },
    decreases candidates.len(),
{
    if candidates.len() > 0 {
        let earlier = present_positions(roles, candidates.drop_last());
        lemma_present_positions_carry(roles, candidates.drop_last());
        lemma_role_position(roles, candidates.last());
        let all = present_positions(roles, candidates);
        let last = candidates.last();
        assert(candidates[candidates.len() - 1] == last);
        assert forall|i: int| 0 <= i < all.len() implies {
            let p = #[trigger] all[i];
            &&& p < roles.len()
            &&& candidates.contains(roles[p as int])
        } by {
            if i < earlier.len() {
                assert(all[i] == earlier[i]);
                let p = earlier[i];
                assert(candidates.drop_last().contains(roles[p as int]));
                let j = choose|j: int| 0 <= j < candidates.drop_last().len() && candidates.drop_last()[j]
                    == roles[p as int];
                assert(candidates[j] == roles[p as int]);
            } else {
                let q = role_position(roles, last)->Some_0;
                assert(all[i] == q as usize);
                assert(roles[q] == last);
                assert(candidates[candidates.len() - 1] == roles[q]);
            }
        }
    }
}

/// A speaker is never fed from a channel on the other side: when a role is
/// made from one input channel, that channel carries the role itself, a
/// speaker on the same side or the center; the LFE is only ever fed from an
/// LFE channel.
pub proof fn lemma_role_source_keeps_side(roles: Seq<ChannelRole>, role: ChannelRole)
    requires
        roles.len() <= usize::MAX,
    ensures
        spec_role_source(roles, role) matches ChannelPlan::Channel(c) ==> {
            &&& c < roles.len()
            &&& is_right_side(role) ==> is_right_side(roles[c as int]) || roles[c as int]
                == ChannelRole::Center
            &&& is_left_side(role) ==> is_left_side(roles[c as int]) || roles[c as int]
                == ChannelRole::Center
            &&& role == ChannelRole::Lfe ==> roles[c as int] == ChannelRole::Lfe
        },
{
    lemma_role_position(roles, role);
    let candidates = fallback_roles(role);
    lemma_present_positions_carry(roles, candidates);
    let found = present_positions(roles, candidates);
    if role_position(roles, role) is None && found.len() > 0 {
        let p = found[0];
        assert(candidates.contains(roles[p as int]));
        let j = choose|j: int| 0 <= j < candidates.len() && candidates[j] == roles[p as int];
        assert(candidates[j] == roles[p as int]);
    }
}

/// A missing rear or side speaker on one side is fed from the front speaker
/// of that side when the input has neither surround speaker of that side:
/// a right surround from the right channel, a left surround from the left.
pub proof fn lemma_missing_surround_uses_front(roles: Seq<ChannelRole>, role: ChannelRole)
    requires
        roles.len() <= usize::MAX,
        role == ChannelRole::BackRight || role == ChannelRole::SideRight || role
            == ChannelRole::BackLeft || role == ChannelRole::SideLeft,
        is_right_side(role) ==> !roles.contains(ChannelRole::BackRight) && !roles.contains(
            ChannelRole::SideRight,
        ) && roles.contains(ChannelRole::Right),
        is_left_side(role) ==> !roles.contains(ChannelRole::BackLeft) && !roles.contains(
            ChannelRole::SideLeft,
        ) && roles.contains(ChannelRole::Left),
    ensures
        is_right_side(role) ==> (role_position(roles, ChannelRole::Right) matches Some(p)
            && spec_role_source(roles, role) == ChannelPlan::Channel(p as usize)),
        is_left_side(role) ==> (role_position(roles, ChannelRole::Left) matches Some(p)
            && spec_role_source(roles, role) == ChannelPlan::Channel(p as usize)),
{
    let candidates = fallback_roles(role);
    lemma_role_position(roles, role);
    lemma_role_position(roles, candidates[0]);
    lemma_role_position(roles, candidates[1]);
    lemma_role_position(roles, candidates[2]);
    let first_two = candidates.drop_last();
    let first_one = first_two.drop_last();
    assert(first_one.drop_last() =~= Seq::<ChannelRole>::empty());
    assert(first_one.last() == candidates[0]);
    assert(first_two.last() == candidates[1]);
    assert(candidates.last() == candidates[2]);
    assert(present_positions(roles, first_one.drop_last()) =~= Seq::<usize>::empty());
    assert(present_positions(roles, first_one) =~= Seq::<usize>::empty());
    let p = role_position(roles, candidates[1])->Some_0;
    assert(present_positions(roles, first_two) =~= seq![p as usize]);
    assert(present_positions(roles, candidates)[0] == p as usize);
}

/// Between two different standard layouts, an output speaker that copies
/// one input channel copies a channel on its own side (or the center): a
/// right speaker is never fed from a left channel, nor a left one from a
/// right channel.
pub proof fn lemma_channel_source_keeps_side(
    input: AudioChannelLayout,
    output: AudioChannelLayout,
    channel: int,
)
    requires
        input != output,
        output != AudioChannelLayout::Mono,
        spec_standard_roles(input) is Some,
        spec_standard_roles(output) is Some,
        0 <= channel < spec_standard_roles(output)->Some_0.len(),
    ensures
        ({
            let input_roles = spec_standard_roles(input)->Some_0;
            let role = spec_standard_roles(output)->Some_0[channel];
            spec_channel_source(input, output, channel) matches ChannelPlan::Channel(c) ==> {
                &&& c < input_roles.len()
                &&& is_right_side(role) ==> is_right_side(input_roles[c as int])
                    || input_roles[c as int] == ChannelRole::Center
                &&& is_left_side(role) ==> is_left_side(input_roles[c as int])
                    || input_roles[c as int] == ChannelRole::Center
            }
        }),
{
    let input_roles = spec_standard_roles(input)->Some_0;
    let role = spec_standard_roles(output)->Some_0[channel];
    lemma_role_source_keeps_side(input_roles, role);
}

/// Whether every input channel that a plan names exists.
pub open spec fn plan_in_range(plan: ChannelPlan, input_channels: int) -> bool {
    match plan {
        ChannelPlan::Silent => true,
        ChannelPlan::Channel(c) => c < input_channels,
        ChannelPlan::Average(channels) => channels.len() > 0 && forall|i: int|
            0 <= i < channels.len() ==> #[trigger] channels[i] < input_channels,
        ChannelPlan::AverageAll => input_channels > 0,
    }
}

fn role_source(roles: &Vec<ChannelRole>, role: ChannelRole) -> (source: ChannelSource)
    ensures
        source@ == spec_role_source(roles@, role),
        plan_in_range(source@, roles@.len() as int),
{
    match find_role(roles, role) {
        Some(p) => ChannelSource::Channel(p),
        None => {
            let fallback = match role {
                ChannelRole::Left => vec![
                    ChannelRole::Center,
                    ChannelRole::BackLeft,
                    ChannelRole::SideLeft,
                ],
                ChannelRole::Right => vec![
                    ChannelRole::Center,
                    ChannelRole::BackRight,
                    ChannelRole::SideRight,
                ],
                ChannelRole::Center => vec![
                    ChannelRole::Left,
                    ChannelRole::Right,
                    ChannelRole::Center,
                ],
                ChannelRole::Lfe => {
                    return ChannelSource::Silent;
                },
                ChannelRole::BackLeft => vec![
                    ChannelRole::SideLeft,
                    ChannelRole::Left,
                    ChannelRole::Center,
                ],
                ChannelRole::BackRight => vec![
                    ChannelRole::SideRight,
                    ChannelRole::Right,
                    ChannelRole::Center,
                ],
                ChannelRole::SideLeft => vec![
                    ChannelRole::BackLeft,
                    ChannelRole::Left,
                    ChannelRole::Center,
                ],
                ChannelRole::SideRight => vec![
                    ChannelRole::BackRight,
                    ChannelRole::Right,
                    ChannelRole::Center,
                ],
            };
            assert(fallback@ =~= fallback_roles(role));
            let found = find_present(roles, &fallback);
            proof {
                lemma_present_positions_in_range(roles@, fallback@);
            }
            if found.len() == 0 {
                ChannelSource::Silent
            } else if role == ChannelRole::Center {
                ChannelSource::Average(found)
            } else {
                ChannelSource::Channel(found[0])
            }
        },
    }
}

/// Decides which input channels feed output channel `output_channel`.
///
/// Every channel that the result names is a channel of the input layout.
pub fn channel_source(
    input: AudioChannelLayout,
    output: AudioChannelLayout,
    output_channel: usize,
) -> (source: ChannelSource)
    requires
        output_channel < output.spec_channels(),
    ensures
        source@ == spec_channel_source(input, output, output_channel as int),
        plan_in_range(source@, input.spec_channels() as int) || input.spec_channels() == 0,
{
    let input_channels = input.channels() as usize;
    if output == AudioChannelLayout::Mono {
        return ChannelSource::AverageAll;
    }
    if input == output {
        if output_channel < input_channels {
            return ChannelSource::Channel(output_channel);
        }
        return ChannelSource::Silent;
    }
    proof {
        lemma_roles_cover_channels(input);
        lemma_roles_cover_channels(output);
    }
    let (input_roles, output_roles) = match (standard_roles(input), standard_roles(output)) {
        (Some(input_roles), Some(output_roles)) => (input_roles, output_roles),
        _ => {
            let last = if input_channels > 0 {
                input_channels - 1
            } else {
                0
            };
            let index = if output_channel < last {
                output_channel
            } else {
                last
            };
            if index < input_channels {
                return ChannelSource::Channel(index);
            }
            return ChannelSource::Silent;
        },
    };
    let role = output_roles[output_channel];
    if (output == AudioChannelLayout::Stereo || output == AudioChannelLayout::TwoPointOne) && (role
        == ChannelRole::Left || role == ChannelRole::Right) {
        let candidates = if role == ChannelRole::Left {
            vec![ChannelRole::Left, ChannelRole::Center, ChannelRole::BackLeft, ChannelRole::SideLeft]
        } else {
            vec![
                ChannelRole::Right,
                ChannelRole::Center,
                ChannelRole::BackRight,
                ChannelRole::SideRight,
            ]
        };
        assert(candidates@ =~= if role == ChannelRole::Left {
            left_downmix()
        } else {
            right_downmix()
        });
        let found = find_present(&input_roles, &candidates);
        proof {
            lemma_present_positions_in_range(input_roles@, candidates@);
        }
        if found.len() > 0 {
            return ChannelSource::Average(found);
        }
        return role_source(&input_roles, role);
    }
    role_source(&input_roles, role)
}

/// Output frames for `frames` input frames, rounded to the nearest integer.
pub open spec fn spec_resampled_frames(frames: int, input_rate: int, output_rate: int) -> int {
    (frames * output_rate + input_rate / 2) / input_rate
}

/// Returns the number of output frames for `frames` input frames, rounded to
/// the nearest integer, or [`AudioError::BufferTooLarge`] (with `usize::MAX`
/// frames) when that exceeds the frame limit.
pub fn resampled_frames(frames: usize, input_rate: u32, output_rate: u32) -> (result: Result<
    usize,
    AudioError,
>)
    requires
        input_rate > 0,
    ensures
        ({
            let expected = spec_resampled_frames(frames as int, input_rate as int, output_rate as int);
            match result {
                Ok(n) => n == expected && n <= MAX_AUDIO_FRAMES,
                Err(error) => expected > MAX_AUDIO_FRAMES && error == AudioError::BufferTooLarge {
                    frames: usize::MAX,
                },
            }
        }),
{
    let f = frames as u128;
    let o = output_rate as u128;
    let i = input_rate as u128;
    assert(f * o <= 0xffff_ffff_ffff_ffffu128 * 0xffff_ffffu128) by (nonlinear_arith)
        requires
            f <= 0xffff_ffff_ffff_ffffu128,
            o <= 0xffff_ffffu128,
    ;
    let n = (f * o + i / 2) / i;
    if n > MAX_AUDIO_FRAMES as u128 {
        return Err(AudioError::BufferTooLarge { frames: usize::MAX });
    }
    Ok(n as usize)
}

/// Where one output frame falls between two input frames: the output
/// sample is `first + (second - first) * fraction_micros / 1_000_000`.
#[derive(Clone, Copy, Debug, PartialEq, Eq, Structural)]
pub struct InterpolationPoint {
    pub first: usize,
    pub second: usize,
    pub fraction_micros: u32,
}

/// The input position of output frame `k`, in millionths of an input frame.
pub open spec fn spec_position(k: int, input_rate: int, output_rate: int) -> int {
    k * (input_rate * 1_000_000) / output_rate
}

/// Whether `point` is where output frame `k` falls in an input of
/// `input_frames` frames: the frame under the position and the next one,
/// both held at the last input frame.
pub open spec fn point_matches(
    point: InterpolationPoint,
    k: int,
    input_frames: int,
    input_rate: int,
    output_rate: int,
) -> bool {
    let position = spec_position(k, input_rate, output_rate);
    let last = input_frames - 1;
    let base = position / 1_000_000;
    let first = if base < last {
        base
    } else {
        last
    };
    let second = if first + 1 < last {
        first + 1
    } else {
        last
    };
    &&& point.first == first
    &&& point.second == second
    &&& point.fraction_micros == position % 1_000_000
}

proof fn lemma_accumulator_step(p: int, r: int, w: int, rs: int, k: int, step: int, den: int)
    by (nonlinear_arith)
    requires
        p * den + r == k * step,
        w * den + rs == step,
    ensures
        (p + w) * den + (r + rs) == (k + 1) * step,
        (p + w + 1) * den + (r + rs - den) == (k + 1) * step,
{
}

proof fn lemma_position_bound(p: int, r: int, k: int, n: int, step: int, den: int, c: int)
    by (nonlinear_arith)
    requires
        0 <= k <= n,
        den > 0,
        step >= 0,
        r >= 0,
        p * den + r == k * step,
        n * step <= den * c,
    ensures
        p <= c,
{
}

proof fn lemma_total_bound(frames: int, n: int, input_rate: int, output_rate: int)
    requires
        0 <= frames <= MAX_AUDIO_FRAMES,
        0 < input_rate <= u32::MAX,
        0 < output_rate <= u32::MAX,
        n == spec_resampled_frames(frames, input_rate, output_rate),
    ensures
        n * (input_rate * 1_000_000) <= output_rate * (frames * 1_000_000 + input_rate
            * 1_000_000),
        frames * 1_000_000 + input_rate * 1_000_000 <= 0x10_0000_0000_0000,
        n >= 0,
{
    let num = frames * output_rate + input_rate / 2;
    assert(num >= 0) by (nonlinear_arith)
        requires
            frames >= 0,
            output_rate > 0,
            input_rate > 0,
            num == frames * output_rate + input_rate / 2,
    ;
    vstd::arithmetic::div_mod::lemma_fundamental_div_mod(num, input_rate);
    vstd::arithmetic::div_mod::lemma_div_pos_is_pos(num, input_rate);
    assert(n * input_rate <= frames * output_rate + input_rate) by (nonlinear_arith)
        requires
            num == input_rate * (num / input_rate) + num % input_rate,
            num % input_rate >= 0,
            n == num / input_rate,
            num == frames * output_rate + input_rate / 2,
            input_rate > 0,
    ;
    assert(n * (input_rate * 1_000_000) <= output_rate * (frames * 1_000_000 + input_rate
        * 1_000_000)) by (nonlinear_arith)
        requires
            n * input_rate <= frames * output_rate + input_rate,
            output_rate >= 1,
            input_rate >= 1,
            frames >= 0,
            n >= 0,
    ;
}

/// Computes where each of `output_frames` output frames falls in an input
/// of `input_frames` frames.
///
/// The position of output frame `k` is `k * input_rate * 1_000_000 /
/// output_rate` millionths of an input frame; it is reached by adding a
/// whole step and carrying a remainder, and the result equals that closed
/// form for every frame.
pub fn interpolation_points(
    input_frames: usize,
    input_rate: u32,
    output_rate: u32,
    output_frames: usize,
) -> (points: Vec<InterpolationPoint>)
    requires
        1 <= input_frames <= MAX_AUDIO_FRAMES,
        input_rate > 0,
        output_rate > 0,
        output_frames == spec_resampled_frames(
            input_frames as int,
            input_rate as int,
            output_rate as int,
        ),
    ensures
        points@.len() == output_frames,
        forall|k: int|
            0 <= k < output_frames ==> point_matches(
                #[trigger] points@[k],
                k,
                input_frames as int,
                input_rate as int,
                output_rate as int,
            ),
{
    let denominator = output_rate as u64;
    let step = input_rate as u64 * 1_000_000;
    let whole_step = step / denominator;
    let remainder_step = step % denominator;
    let ghost bound: int = input_frames * 1_000_000 + input_rate * 1_000_000;
    proof {
        lemma_total_bound(input_frames as int, output_frames as int, input_rate as int, output_rate as int);
        vstd::arithmetic::div_mod::lemma_fundamental_div_mod(step as int, denominator as int);
        assert(whole_step * denominator + remainder_step == step) by (nonlinear_arith)
            requires
                step == denominator * (step / denominator) + step % denominator,
                whole_step == step / denominator,
                remainder_step == step % denominator,
        ;
    }
    let last = input_frames - 1;
    let mut position: u64 = 0;
    let mut remainder: u64 = 0;
    let mut points: Vec<InterpolationPoint> = Vec::new();
    let mut k: usize = 0;
    while k < output_frames
        invariant
            k <= output_frames,
            last == input_frames - 1,
            1 <= input_frames <= MAX_AUDIO_FRAMES,
            denominator == output_rate,
            output_rate > 0,
            input_rate > 0,
            step == input_rate * 1_000_000,
            whole_step * denominator + remainder_step == step,
            remainder_step < denominator,
            bound == input_frames * 1_000_000 + input_rate * 1_000_000,
            bound <= 0x10_0000_0000_0000,
            output_frames * step <= denominator * bound,
            position * denominator + remainder == k * step,
            remainder < denominator,
            points@.len() == k,
            forall|j: int|
                0 <= j < k ==> point_matches(
                    #[trigger] points@[j],
                    j,
                    input_frames as int,
                    input_rate as int,
                    output_rate as int,
                ),
        decreases output_frames - k,
    {
        proof {
            vstd::arithmetic::div_mod::lemma_fundamental_div_mod_converse(
                k * step,
                denominator as int,
                position as int,
                remainder as int,
            );
            assert(position == spec_position(k as int, input_rate as int, output_rate as int));
        }
        let base = position / 1_000_000;
        let first: usize = if base < last as u64 {
            base as usize
        } else {
            last
        };
        let second: usize = if first + 1 < last {
            first + 1
        } else {
            last
        };
        let point = InterpolationPoint {
            first,
            second,
            fraction_micros: (position % 1_000_000) as u32,
        };
        points.push(point);
        proof {
            lemma_accumulator_step(
                position as int,
                remainder as int,
                whole_step as int,
                remainder_step as int,
                k as int,
                step as int,
                denominator as int,
            );
            lemma_position_bound(
                (position + whole_step) as int,
                (remainder + remainder_step) as int,
                k + 1,
                output_frames as int,
                step as int,
                denominator as int,
                bound,
            );
        }
        position = position + whole_step;
        remainder = remainder + remainder_step;
        if remainder >= denominator {
            proof {
                lemma_position_bound(
                    (position + 1) as int,
                    (remainder - denominator) as int,
                    k + 1,
                    output_frames as int,
                    step as int,
                    denominator as int,
                    bound,
                );
            }
            remainder = remainder - denominator;
            position = position + 1;
        }
        k = k + 1;
    }
    points
}

/// A linear resampler and channel mapper between two formats.
#[derive(Clone, Copy, Debug, PartialEq, Eq, Structural)]
pub struct AudioResampler {
    input: AudioFormat,
    output: AudioFormat,
}

impl AudioResampler {
    /// The format that the resampler accepts.
    pub closed spec fn spec_input(self) -> AudioFormat {
        self.input
    }

    /// The format that the resampler produces.
    pub closed spec fn spec_output(self) -> AudioFormat {
        self.output
    }

    /// Creates a resampler between two formats. Every pair of formats is
    /// accepted.
    pub fn new(input: AudioFormat, output: AudioFormat) -> (result: Result<Self, AudioError>)
        ensures
            result matches Ok(resampler) && resampler.spec_input() == input
                && resampler.spec_output() == output,
    {
        Ok(AudioResampler { input, output })
    }

    /// Returns the input format.
    pub fn input_format(&self) -> (format: AudioFormat)
        ensures
            format == self.spec_input(),
    {
        self.input
    }

    /// Returns the output format.
    pub fn output_format(&self) -> (format: AudioFormat)
        ensures
            format == self.spec_output(),
    {
        self.output
    }

    /// How each output channel is made from an input frame, in channel order.
    pub fn channel_sources(&self) -> (sources: Vec<ChannelSource>)
        ensures
            sources@.len() == self.spec_output().spec_channels(),
            forall|c: int|
                0 <= c < sources@.len() ==> (#[trigger] sources@[c])@ == spec_channel_source(
                    self.spec_input().spec_layout(),
                    self.spec_output().spec_layout(),
                    c,
                ) && plan_in_range(sources@[c]@, self.spec_input().spec_channels() as int),
    {
        let input_layout = self.input.layout();
        let output_layout = self.output.layout();
        let channels = self.output.channels() as usize;
        let mut sources: Vec<ChannelSource> = Vec::new();
        let mut c: usize = 0;
        while c < channels
            invariant
                c <= channels,
                channels == self.spec_output().spec_channels(),
                output_layout.spec_channels() == channels,
                input_layout == self.spec_input().spec_layout(),
                output_layout == self.spec_output().spec_layout(),
                input_layout.spec_channels() == self.spec_input().spec_channels(),
                self.spec_input().spec_channels() > 0,
                sources@.len() == c,
                forall|j: int|
                    0 <= j < c ==> (#[trigger] sources@[j])@ == spec_channel_source(
                        input_layout,
                        output_layout,
                        j,
                    ) && plan_in_range(sources@[j]@, self.spec_input().spec_channels() as int),
            decreases channels - c,
        {
            let source = channel_source(input_layout, output_layout, c);
            sources.push(source);
            c = c + 1;
        }
        sources
    }

    /// Plans the conversion of one buffer: the output frames and where each
    /// falls in the input.
    ///
    /// Returns [`AudioError::FormatMismatch`] for a buffer of another format,
    /// no points for an empty buffer, and [`AudioError::BufferTooLarge`] (with
    /// `usize::MAX` frames) when the rounded output frame count exceeds the
    /// frame limit.
    pub fn plan<S: Copy>(&self, input: &AudioBuffer<S>) -> (result: Result<
        Vec<InterpolationPoint>,
        AudioError,
    >)
        ensures
            ({
                let frames = input.spec_frames();
                let input_rate = self.spec_input().spec_sample_rate() as int;
                let output_rate = self.spec_output().spec_sample_rate() as int;
                let expected = spec_resampled_frames(frames, input_rate, output_rate);
                if input.spec_format() != self.spec_input() {
                    result == Err::<Vec<InterpolationPoint>, AudioError>(
                        AudioError::FormatMismatch {
                            expected: self.spec_input(),
                            actual: input.spec_format(),
                        },
                    )
                } else if frames == 0 {
                    result matches Ok(points) && points@.len() == 0
                } else if expected > MAX_AUDIO_FRAMES {
                    result == Err::<Vec<InterpolationPoint>, AudioError>(
                        AudioError::BufferTooLarge { frames: usize::MAX },
                    )
                } else {
                    result matches Ok(points) && points@.len() == expected && forall|k: int|
                        0 <= k < expected ==> point_matches(
                            #[trigger] points@[k],
                            k,
                            frames,
                            input_rate,
                            output_rate,
                        )
                }
            }),
    {
        if input.format() != self.input {
            return Err(AudioError::FormatMismatch { expected: self.input, actual: input.format() });
        }
        let frames = input.frames();
        if frames == 0 {
            return Ok(Vec::new());
        }
        let input_rate = self.input.sample_rate();
        let output_rate = self.output.sample_rate();
        let output_frames = match resampled_frames(frames, input_rate, output_rate) {
            Ok(n) => n,
            Err(error) => {
                return Err(error);
            },
        };
        Ok(interpolation_points(frames, input_rate, output_rate, output_frames))
    }

    /// Builds the converted buffer of `input` from its output `samples`: it
    /// has the output format and the input's start time, and every sample is
    /// checked with `is_finite`, as [`AudioBuffer::new_checked`] checks it.
    pub fn output_buffer<S: Copy, F: Fn(S) -> bool>(
        &self,
        input: &AudioBuffer<S>,
        samples: Vec<S>,
        is_finite: F,
    ) -> (result: Result<AudioBuffer<S>, AudioError>)
        requires
            forall|s: S| #[trigger] is_finite.requires((s,)),
        ensures
            checked_buffer_result(self.spec_output(), input.spec_timestamp(), samples@, is_finite, result),
    {
        AudioBuffer::new_checked(self.output, input.timestamp(), samples, is_finite)
    }
}

/// The start time of output frame `output_frame` of a stream that began at
/// `start`, in whole nanoseconds.
pub open spec fn spec_sample_offset(output_frame: int, sample_rate: int) -> int {
    output_frame * 1_000_000_000 / sample_rate
}

/// Returns the timestamp of output frame `output_frame` of a stream that
/// began at `start`, or [`AudioError::ScheduleOverflow`] when the frame
/// clock or the timestamp cannot be represented.
pub fn sample_timestamp(start: Timestamp, output_frame: u64, sample_rate: u32) -> (result: Result<
    Timestamp,
    AudioError,
>)
    requires
        sample_rate > 0,
    ensures
        ({
            let offset = spec_sample_offset(output_frame as int, sample_rate as int);
            if output_frame * 1_000_000_000 > u64::MAX || start.spec_nanos() + offset > u64::MAX {
                result == Err::<Timestamp, AudioError>(AudioError::ScheduleOverflow)
            } else {
                result matches Ok(t) && t.spec_nanos() == start.spec_nanos() + offset
            }
        }),
{
    let scaled = match output_frame.checked_mul(1_000_000_000) {
        Some(scaled) => scaled,
        None => {
            return Err(AudioError::ScheduleOverflow);
        },
    };
    let offset = scaled / sample_rate as u64;
    match start.checked_add(offset) {
        Some(t) => Ok(t),
        None => Err(AudioError::ScheduleOverflow),
    }
}

/// Which input frame an interpolation endpoint reads.
#[derive(Clone, Copy, Debug, PartialEq, Eq, Structural)]
pub enum FrameRef {
    /// The last frame of the previous block, held back as look-ahead.
    Previous,
    /// A frame of the current block, by index within the block.
    Input(usize),
}

/// One output frame of a stream block: the output sample is
/// `first + (second - first) * fraction_numerator / denominator`.
#[derive(Clone, Copy, Debug, PartialEq, Eq, Structural)]
pub struct StreamStep {
    pub first: FrameRef,
    pub second: FrameRef,
    pub fraction_numerator: u64,
}

/// The output frames of one stream block, their shared fraction
/// denominator and the timestamp of the first of them.
#[derive(Debug)]
pub struct StreamBlock {
    pub steps: Vec<StreamStep>,
    pub denominator: u64,
    pub timestamp: Timestamp,
}

/// Where stream frame `index` is found while a block of `frames` frames
/// that starts at stream frame `start` is processed.
pub open spec fn spec_frame_ref(start: int, has_previous: bool, index: int, frames: int) -> Option<
    FrameRef,
> {
    if index < start {
        if index + 1 == start && has_previous {
            Some(FrameRef::Previous)
        } else {
            None
        }
    } else if index - start < frames {
        Some(FrameRef::Input((index - start) as usize))
    } else {
        None
    }
}

/// The output frame at stream position `position` (in units of
/// `1 / output_rate` input frames).
pub open spec fn spec_stream_step(
    position: int,
    output_rate: int,
    start: int,
    has_previous: bool,
    frames: int,
) -> Option<StreamStep> {
    let index = position / output_rate;
    match (
        spec_frame_ref(start, has_previous, index, frames),
        spec_frame_ref(start, has_previous, index + 1, frames),
    ) {
        (Some(first), Some(second)) => Some(
            StreamStep { first, second, fraction_numerator: (position % output_rate) as u64 },
        ),
        _ => None,
    }
}

/// The number of output frames whose interpolation endpoints have both
/// arrived once the stream holds `end` input frames: the positions
/// `position + j * step` that lie before input frame `end - 1`.
pub open spec fn spec_step_count(position: int, step: int, output_rate: int, end: int) -> int {
    let target = (end - 1) * output_rate;
    if position >= target {
        0
    } else {
        (target - position + step - 1) / step
    }
}

/// Whether emitting output frame `j` of a block (counting from one) fails:
/// the stream position or the output frame counter overflows, or the block
/// exceeds the frame limit.
pub open spec fn stream_fails_at(position: int, output_frames: int, step: int, j: int) -> bool {
    ||| position + j * step > u64::MAX
    ||| output_frames + j > u64::MAX
    ||| j > MAX_AUDIO_FRAMES
}

proof fn lemma_fails_monotone(position: int, output_frames: int, step: int, j: int, n: int)
    requires
        1 <= j <= n,
        step > 0,
        stream_fails_at(position, output_frames, step, j),
    ensures
        stream_fails_at(position, output_frames, step, n),
{
    assert(j * step <= n * step) by (nonlinear_arith)
        requires
            1 <= j <= n,
            step > 0,
    ;
}

proof fn lemma_div_below(x: int, d: int, e: int)
    requires
        x >= 0,
        d > 0,
    ensures
        x / d < e <==> x < e * d,
{
    vstd::arithmetic::div_mod::lemma_fundamental_div_mod(x, d);
    let q = x / d;
    let r = x % d;
    assert(x / d < e <==> x < e * d) by (nonlinear_arith)
        requires
            x == d * q + r,
            0 <= r < d,
            q == x / d,
            d > 0,
    ;
}

proof fn lemma_step_count(position: int, step: int, output_rate: int, end: int, k: int)
    requires
        position >= 0,
        step > 0,
        output_rate > 0,
        end >= 1,
        k >= 0,
    ensures
        (position + k * step) / output_rate < end - 1 <==> k < spec_step_count(
            position,
            step,
            output_rate,
            end,
        ),
        spec_step_count(position, step, output_rate, end) >= 0,
{
    let target = (end - 1) * output_rate;
    assert(k * step >= 0) by (nonlinear_arith)
        requires
            k >= 0,
            step > 0,
    ;
    lemma_div_below(position + k * step, output_rate, end - 1);
    if position < target {
        let x = target - position + step - 1;
        vstd::arithmetic::div_mod::lemma_fundamental_div_mod(x, step);
        let q = x / step;
        let r = x % step;
        assert(k < q <==> position + k * step < target) by (nonlinear_arith)
            requires
                x == step * q + r,
                0 <= r < step,
                x == target - position + step - 1,
                step > 0,
        ;
        assert(q >= 0) by (nonlinear_arith)
            requires
                x == step * q + r,
                0 <= r < step,
                x >= 0,
                step > 0,
        ;
    }
}

/// A stateful linear resampler for a continuous stream of blocks.
///
/// The stream carries the fractional position and one frame of look-ahead
/// across block boundaries, so interpolation does not restart at every
/// block: the last input frame of each block is held back until the next
/// one arrives.
pub struct StreamingAudioResampler {
    resampler: AudioResampler,
    input_frames: u64,
    position: u64,
    output_frames: u64,
    start_timestamp: Option<Timestamp>,
    has_previous: bool,
}

impl StreamingAudioResampler {
    /// The formats that the stream converts between.
    pub closed spec fn spec_resampler(self) -> AudioResampler {
        self.resampler
    }

    /// The number of input frames accepted so far.
    pub closed spec fn spec_input_frames(self) -> int {
        self.input_frames as int
    }

    /// The stream position of the next output frame, in units of one
    /// output-rate-th of an input frame.
    pub closed spec fn spec_position(self) -> int {
        self.position as int
    }

    /// The number of output frames emitted so far.
    pub closed spec fn spec_output_frames(self) -> int {
        self.output_frames as int
    }

    /// The timestamp of input frame zero, once a block has been accepted.
    pub closed spec fn spec_start(self) -> Option<Timestamp> {
        self.start_timestamp
    }

    /// Whether the last frame of the previous block is held back.
    pub closed spec fn spec_has_previous(self) -> bool {
        self.has_previous
    }

    /// The input sample rate.
    pub open spec fn spec_input_rate(self) -> int {
        self.spec_resampler().spec_input().spec_sample_rate() as int
    }

    /// The output sample rate.
    pub open spec fn spec_output_rate(self) -> int {
        self.spec_resampler().spec_output().spec_sample_rate() as int
    }

    /// The stream invariant: every position not yet emitted lies at or
    /// after the held-back frame.
    pub closed spec fn inv(self) -> bool {
        &&& self.resampler.input.wf()
        &&& self.resampler.output.wf()
        &&& self.position as int / self.resampler.output.spec_sample_rate() as int + 1
            >= self.input_frames
        &&& (self.position as int / self.resampler.output.spec_sample_rate() as int + 1
            == self.input_frames ==> self.has_previous)
    }

    /// Creates a stream between two formats. Every pair of formats is
    /// accepted.
    pub fn new(input: AudioFormat, output: AudioFormat) -> (result: Result<Self, AudioError>)
        ensures
            result matches Ok(stream) && {
                &&& stream.inv()
                &&& stream.spec_resampler().spec_input() == input
                &&& stream.spec_resampler().spec_output() == output
                &&& stream.spec_input_frames() == 0
                &&& stream.spec_position() == 0
                &&& stream.spec_output_frames() == 0
                &&& stream.spec_start() is None
                &&& !stream.spec_has_previous()
            },
    {
        let resampler = match AudioResampler::new(input, output) {
            Ok(resampler) => resampler,
            Err(error) => {
                return Err(error);
            },
        };
        let _ = input.sample_rate();
        let _ = output.sample_rate();
        Ok(StreamingAudioResampler {
            resampler,
            input_frames: 0,
            position: 0,
            output_frames: 0,
            start_timestamp: None,
            has_previous: false,
        })
    }

    /// Returns the source format accepted by this stream.
    pub fn input_format(&self) -> (format: AudioFormat)
        ensures
            format == self.spec_resampler().spec_input(),
    {
        self.resampler.input
    }

    /// Returns the converted format emitted by this stream.
    pub fn output_format(&self) -> (format: AudioFormat)
        ensures
            format == self.spec_resampler().spec_output(),
    {
        self.resampler.output
    }

    /// Returns the number of input frames accepted so far.
    pub fn input_frames(&self) -> (frames: u64)
        ensures
            frames == self.spec_input_frames(),
    {
        self.input_frames
    }

    /// Returns the number of output frames emitted so far.
    pub fn output_frames(&self) -> (frames: u64)
        ensures
            frames == self.spec_output_frames(),
    {
        self.output_frames
    }

    /// Plans the next contiguous input block and keeps the fractional phase
    /// for the following block.
    ///
    /// An output frame is emitted only when both of its interpolation
    /// endpoints have arrived; the block's last frame is held back as the
    /// endpoint for the next block. An empty block emits nothing and changes
    /// nothing. Returns [`AudioError::FormatMismatch`] for a block of another
    /// format, [`AudioError::BufferTooLarge`] when the block would emit more
    /// frames than the frame limit, and [`AudioError::ScheduleOverflow`] when
    /// the stream clock cannot be represented.
    pub fn plan_block<S: Copy>(&mut self, input: &AudioBuffer<S>) -> (result: Result<
        StreamBlock,
        AudioError,
    >)
        requires
            old(self).inv(),
        ensures
            final(self).inv(),
            final(self).spec_resampler() == old(self).spec_resampler(),
            result is Ok && old(self).spec_position() == old(self).spec_output_frames()
                * old(self).spec_input_rate() ==> final(self).spec_position()
                == final(self).spec_output_frames() * final(self).spec_input_rate(),
            ({
                let p0 = old(self).spec_position();
                let of0 = old(self).spec_output_frames();
                let start = old(self).spec_input_frames();
                let step = old(self).spec_input_rate();
                let rate = old(self).spec_output_rate();
                let frames = input.spec_frames();
                let end = start + frames;
                let n = spec_step_count(p0, step, rate, end);
                let stream_start = match old(self).spec_start() {
                    Some(t) => t,
                    None => input.spec_timestamp(),
                };
                if input.spec_format() != old(self).spec_resampler().spec_input() {
                    &&& result == Err::<StreamBlock, AudioError>(
                        AudioError::FormatMismatch {
                            expected: old(self).spec_resampler().spec_input(),
                            actual: input.spec_format(),
                        },
                    )
                    &&& *final(self) == *old(self)
                } else if frames == 0 {
                    &&& result matches Ok(block) && block.steps@.len() == 0 && block.timestamp
                        == stream_start && block.denominator == rate
                    &&& *final(self) == *old(self)
                } else if end > u64::MAX {
                    &&& result == Err::<StreamBlock, AudioError>(AudioError::ScheduleOverflow)
                    &&& *final(self) == *old(self)
                } else if n >= 1 && stream_fails_at(p0, of0, step, n) {
                    exists|j: int|
                        1 <= j <= n && #[trigger] stream_fails_at(p0, of0, step, j) && (j == 1
                            || !stream_fails_at(p0, of0, step, j - 1)) && {
                            &&& final(self).spec_input_frames() == start
                            &&& final(self).spec_start() == old(self).spec_start()
                            &&& final(self).spec_has_previous() == old(self).spec_has_previous()
                            &&& if p0 + j * step > u64::MAX {
                                &&& result == Err::<StreamBlock, AudioError>(
                                    AudioError::ScheduleOverflow,
                                )
                                &&& final(self).spec_position() == p0 + (j - 1) * step
                                &&& final(self).spec_output_frames() == of0 + j - 1
                            } else if of0 + j > u64::MAX {
                                &&& result == Err::<StreamBlock, AudioError>(
                                    AudioError::ScheduleOverflow,
                                )
                                &&& final(self).spec_position() == p0 + j * step
                                &&& final(self).spec_output_frames() == of0 + j - 1
                            } else {
                                &&& result == Err::<StreamBlock, AudioError>(
                                    AudioError::BufferTooLarge { frames: j as usize },
                                )
                                &&& final(self).spec_position() == p0 + j * step
                                &&& final(self).spec_output_frames() == of0 + j
                            }
                        }
                } else {
                    &&& final(self).spec_position() == p0 + n * step
                    &&& final(self).spec_output_frames() == of0 + n
                    &&& final(self).spec_input_frames() == end
                    &&& final(self).spec_has_previous()
                    &&& final(self).spec_start() == Some(stream_start)
                    &&& if of0 * 1_000_000_000 > u64::MAX || stream_start.spec_nanos()
                        + spec_sample_offset(of0, rate) > u64::MAX {
                        result == Err::<StreamBlock, AudioError>(AudioError::ScheduleOverflow)
                    } else {
                        result matches Ok(block) && {
                            &&& block.denominator == rate
                            &&& block.timestamp.spec_nanos() == stream_start.spec_nanos()
                                + spec_sample_offset(of0, rate)
                            &&& block.steps@.len() == n
                            &&& forall|j: int|
                                0 <= j < n ==> spec_stream_step(p0 + j * step, rate, start, old(self).spec_has_previous(), frames)
                                    == Some(#[trigger] block.steps@[j])
                        }
                    }
                }
            }),
    {
        let input_format = self.resampler.input;
        let output_rate = self.resampler.output.sample_rate();
        let input_rate = input_format.sample_rate();
        if input.format() != input_format {
            return Err(AudioError::FormatMismatch { expected: input_format, actual: input.format() });
        }
        let frames = input.frames();
        let stream_start = match self.start_timestamp {
            Some(t) => t,
            None => input.timestamp(),
        };
        if frames == 0 {
            return Ok(StreamBlock { steps: Vec::new(), denominator: output_rate as u64, timestamp: stream_start });
        }
        let start_frame = self.input_frames;
        let end_frame = match start_frame.checked_add(frames as u64) {
            Some(end) => end,
            None => {
                return Err(AudioError::ScheduleOverflow);
            },
        };
        let step = input_rate as u64;
        let rate = output_rate as u64;
        let has_previous = self.has_previous;
        let p0 = self.position;
        let of0 = self.output_frames;
        let ghost n = spec_step_count(p0 as int, step as int, rate as int, end_frame as int);
        let mut steps: Vec<StreamStep> = Vec::new();
        let mut k: usize = 0;
        proof {
            lemma_step_count(p0 as int, step as int, rate as int, end_frame as int, 0);
        }
        while self.position / rate < end_frame - 1
            invariant
                self.inv(),
                self.resampler == old(self).resampler,
                self.input_frames == start_frame,
                start_frame == old(self).input_frames,
                input.spec_format() == old(self).resampler.input,
                frames == input.spec_frames(),
                self.start_timestamp == old(self).start_timestamp,
                self.has_previous == has_previous,
                has_previous == old(self).has_previous,
                rate == self.resampler.output.spec_sample_rate(),
                step == self.resampler.input.spec_sample_rate(),
                rate > 0,
                step > 0,
                1 <= frames <= MAX_AUDIO_FRAMES,
                end_frame == start_frame + frames,
                p0 == old(self).position,
                of0 == old(self).output_frames,
                p0 as int / rate as int + 1 >= start_frame,
                p0 as int / rate as int + 1 == start_frame ==> has_previous,
                n == spec_step_count(p0 as int, step as int, rate as int, end_frame as int),
                0 <= k <= n,
                (self.position as int / rate as int) < end_frame - 1 <==> k < n,
                self.position == p0 + k * step,
                self.output_frames == of0 + k,
                steps@.len() == k,
                forall|j: int|
                    1 <= j <= k ==> !#[trigger] stream_fails_at(p0 as int, of0 as int, step as int, j),
                forall|j: int|
                    0 <= j < k ==> spec_stream_step(
                        p0 + j * step,
                        rate as int,
                        start_frame as int,
                        has_previous,
                        frames as int,
                    ) == Some(#[trigger] steps@[j]),
            ensures
                k == n,
            decreases n - k,
        {
            proof {
                lemma_step_count(p0 as int, step as int, rate as int, end_frame as int, k as int);
                lemma_step_count(p0 as int, step as int, rate as int, end_frame as int, k as int + 1);
                assert(p0 + (k + 1) * step == p0 + k * step + step) by (nonlinear_arith);
                assert(k * step >= 0) by (nonlinear_arith)
                    requires
                        k >= 0,
                        step > 0,
                ;
                vstd::arithmetic::div_mod::lemma_div_is_ordered(
                    p0 as int,
                    self.position as int,
                    rate as int,
                );
                if k + 1 <= n && stream_fails_at(p0 as int, of0 as int, step as int, k + 1) {
                    lemma_fails_monotone(p0 as int, of0 as int, step as int, k + 1, n);
                }
            }
            let index = self.position / rate;
            let first = stream_frame(start_frame, has_previous, index, frames);
            let second = stream_frame(start_frame, has_previous, index + 1, frames);
            let (first, second) = match (first, second) {
                (Some(first), Some(second)) => (first, second),
                _ => {
                    break;
                },
            };
            steps.push(StreamStep { first, second, fraction_numerator: self.position % rate });
            let next_position = match self.position.checked_add(step) {
                Some(next) => next,
                None => {
                    proof {
                        let j = k + 1;
                        assert(stream_fails_at(p0 as int, of0 as int, step as int, j));
                        lemma_fails_monotone(p0 as int, of0 as int, step as int, j, n);
                        assert(j == 1 || !stream_fails_at(p0 as int, of0 as int, step as int, j - 1));
                    }
                    return Err(AudioError::ScheduleOverflow);
                },
            };
            self.position = next_position;
            proof {
                vstd::arithmetic::div_mod::lemma_div_is_ordered(
                    p0 as int,
                    self.position as int,
                    rate as int,
                );
            }
            let next_output = match self.output_frames.checked_add(1) {
                Some(next) => next,
                None => {
                    proof {
                        let j = k + 1;
                        assert(stream_fails_at(p0 as int, of0 as int, step as int, j));
                        lemma_fails_monotone(p0 as int, of0 as int, step as int, j, n);
                        assert(j == 1 || !stream_fails_at(p0 as int, of0 as int, step as int, j - 1));
                    }
                    return Err(AudioError::ScheduleOverflow);
                },
            };
            self.output_frames = next_output;
            if steps.len() > MAX_AUDIO_FRAMES {
                return Err(AudioError::BufferTooLarge { frames: steps.len() });
            }
            k = k + 1;
        }
        proof {
            let (o, kk, st) = (of0 as int, k as int, step as int);
            assert((o + kk) * st == o * st + kk * st) by (nonlinear_arith);
        }
        self.input_frames = end_frame;
        self.has_previous = true;
        self.start_timestamp = Some(stream_start);
        let timestamp = match sample_timestamp(stream_start, of0, output_rate) {
            Ok(t) => t,
            Err(error) => {
                return Err(error);
            },
        };
        Ok(StreamBlock { steps, denominator: rate, timestamp })
    }
}

/// Returns where stream frame `index` is found while a block of `frames`
/// frames that starts at stream frame `start` is processed.
pub fn stream_frame(start: u64, has_previous: bool, index: u64, frames: usize) -> (found: Option<
    FrameRef,
>)
    ensures
        found == spec_frame_ref(start as int, has_previous, index as int, frames as int),
{
    if index < start {
        if index + 1 == start && has_previous {
            return Some(FrameRef::Previous);
        }
        return None;
    }
    let local = index - start;
    if local < frames as u64 {
        Some(FrameRef::Input(local as usize))
    } else {
        None
    }
}

} // verus!
