//! Scanning.
use vstd::prelude::*;

use crate::lmac::{valid_channel, ChannelState, LMacError, OffChannelOperation, SharedLMacState};

verus! {

/// This specifies the order in which channels should be scanned.
#[derive(Clone, Copy, Debug)]
pub enum ScanStrategy<'a> {
    /// Only a single channel should be scanned.
    Single(u8),
    /// Only the current channel should be scanned.
    CurrentChannel,
    /// Scan the channels in ascending order (i.e. 1-13).
    Linear,
    /// Scan the channels in groups of three non overlapping channels (i.e. 1, 6, 11, 2, 7, 12 etc.).
    NonOverlappingFirst,
    /// Use a custom channel sequence.
    Custom(&'a [u8]),
}

/// The channels of a linear scan.
pub open spec fn linear_channels() -> Seq<u8> {
    seq![1u8, 2, 3, 4, 5, 6, 7, 8, 9, 10, 11, 12, 13]
}

/// The channels of a scan that starts with channels that don't overlap.
pub open spec fn non_overlapping_channels() -> Seq<u8> {
    seq![1u8, 6, 11, 2, 7, 12, 3, 8, 13, 4, 9, 5, 10]
}

impl<'a> ScanStrategy<'a> {
    /// The channels to scan, in order.
    pub open spec fn spec_channels(&self, current_channel: u8) -> Seq<u8> {
        match self {
            ScanStrategy::Single(channel) => seq![*channel],
            ScanStrategy::CurrentChannel => seq![current_channel],
            ScanStrategy::Linear => linear_channels(),
            ScanStrategy::NonOverlappingFirst => non_overlapping_channels(),
            ScanStrategy::Custom(channels) => channels@,
        }
    }

    /// Determine the channels that should be scanned.
    pub fn channels(&self, current_channel: u8) -> (channels: Vec<u8>)
        ensures
            channels@ == self.spec_channels(current_channel),
    {
        let channels = match self {
            ScanStrategy::Single(channel) => vec![*channel],
            ScanStrategy::CurrentChannel => vec![current_channel],
            ScanStrategy::Linear => vec![1, 2, 3, 4, 5, 6, 7, 8, 9, 10, 11, 12, 13],
            ScanStrategy::NonOverlappingFirst => vec![1, 6, 11, 2, 7, 12, 3, 8, 13, 4, 9, 5, 10],
            ScanStrategy::Custom(channels) => {
                let mut copy: Vec<u8> = Vec::new();
                let mut i: usize = 0;
                while i < channels.len()
                    invariant
                        i <= channels@.len(),
                        copy@ == channels@.subrange(0, i as int),
                    decreases channels@.len() - i,
                {
                    copy.push(channels[i]);
                    i = i + 1;
                    assert(copy@ =~= channels@.subrange(0, i as int));
                }
                assert(copy@ =~= channels@);
                copy
            },
        };
        assert(channels@ =~= self.spec_channels(current_channel));
        channels
    }
}

impl<'a> Default for ScanStrategy<'a> {
    fn default() -> (strategy: Self)
        ensures
            strategy is NonOverlappingFirst,
    {
        ScanStrategy::NonOverlappingFirst
    }
}

/// What to do after scanning on a channel.
#[derive(Debug)]
pub enum PostChannelScanAction<Res> {
    /// Continue scanning the next channel.
    Continue,
    /// Stop scanning.
    Stop(Res),
}

/// Configuration for a scan.
///
/// This allows configuring how the scan is performed and on which channels.
#[derive(Clone, Copy, Debug)]
pub struct ScanConfig<'a> {
    /// The time we should remain on one channel, before jumping to the next one, in microseconds.
    ///
    /// The default is 200 ms. It is not recommended to go below 100 ms, since that's the beacon
    /// interval of almost every network.
    pub channel_remain_time: u64,
    /// The strategy that should be used to scan channels.
    pub strategy: ScanStrategy<'a>,
}

impl<'a> Default for ScanConfig<'a> {
    fn default() -> (config: Self)
        ensures
            config.channel_remain_time == 200_000,
            config.strategy is NonOverlappingFirst,
    {
        ScanConfig { channel_remain_time: 200_000, strategy: ScanStrategy::NonOverlappingFirst }
    }
}

/// A scan that is under way.
pub struct Scan {
    /// The channels to scan.
    pub channels: Vec<u8>,
    /// Index of the channel that comes next.
    pub position: usize,
    /// The time to remain on each channel, in microseconds.
    pub channel_remain_time: u64,
    /// Whether to start over after the last channel.
    pub continuous: bool,
}

/// The next step of a scan.
#[derive(Clone, Copy, Debug, PartialEq, Eq, Structural)]
pub enum ScanStep {
    /// Listen on a channel.
    Listen(u8),
    /// All channels were scanned.
    Complete,
}

impl Scan {
    /// Begin a scan. If no configuration is given, the default is used.
    pub fn begin(scan_config: Option<ScanConfig<'_>>, current_channel: u8, continuous: bool)
        -> (scan: Self)
        ensures
            scan.position == 0,
            scan.continuous == continuous,
            scan_config matches Some(config) ==> {
                &&& scan.channels@ == config.strategy.spec_channels(current_channel)
                &&& scan.channel_remain_time == config.channel_remain_time
            },
            scan_config is None ==> {
                &&& scan.channels@ == non_overlapping_channels()
                &&& scan.channel_remain_time == 200_000
            },
    {
        let config = match scan_config {
            Some(config) => config,
            None => ScanConfig::default(),
        };
        Scan {
            channels: config.strategy.channels(current_channel),
            position: 0,
            channel_remain_time: config.channel_remain_time,
            continuous,
        }
    }

    /// What going to the next channel leads to.
    pub open spec fn has_advanced(
        &self,
        before: Scan,
        state: SharedLMacState,
        state_after: SharedLMacState,
        step: Result<ScanStep, LMacError>,
    ) -> bool {
        &&& self.position <= self.channels@.len()
        &&& self.channels@ == before.channels@
        &&& self.channel_remain_time == before.channel_remain_time
        &&& self.continuous == before.continuous
        &&& match before.upcoming() {
            None => {
                &&& step == Ok::<ScanStep, LMacError>(ScanStep::Complete)
                &&& self.position == before.position
                &&& state_after == state
            },
            Some(position) => {
                let channel = before.channels@[position];
                &&& self.position == position + 1
                &&& step == if valid_channel(channel) {
                    Ok::<ScanStep, LMacError>(ScanStep::Listen(channel))
                } else {
                    Err::<ScanStep, LMacError>(LMacError::InvalidChannel)
                }
                &&& state_after == (SharedLMacState {
                    channel_state: ChannelState {
                        channel: if valid_channel(channel) {
                            channel
                        } else {
                            state.channel_state.channel
                        },
                        ..state.channel_state
                    },
                    ..state
                })
            },
        }
    }

    /// Go to the next channel.
    ///
    /// A channel that does not exist ends the scan with an error.
    pub fn next_channel(
        &mut self,
        operation: &mut OffChannelOperation,
        state: &mut SharedLMacState,
    ) -> (step: Result<ScanStep, LMacError>)
        requires
            old(self).position <= old(self).channels@.len(),
        ensures
            *final(operation) == *old(operation),
            final(self).has_advanced(*old(self), *old(state), *final(state), step),
    {
        if self.position >= self.channels.len() && self.continuous {
            self.position = 0;
        }
        if self.position >= self.channels.len() {
            return Ok(ScanStep::Complete);
        }
        let channel: u8 = self.channels[self.position];
        self.position = self.position + 1;
        match operation.set_channel(state, channel) {
            Ok(()) => Ok(ScanStep::Listen(channel)),
            Err(error) => Err(error),
        }
    }

    /// Index of the channel that comes next; none once a scan that is not continuous is through.
    pub open spec fn upcoming(&self) -> Option<int> {
        if self.position < self.channels@.len() {
            Some(self.position as int)
        } else if self.continuous && self.channels@.len() > 0 {
            Some(0int)
        } else {
            None
        }
    }
}

/// Both orders of scanning cover the channels from 1 to 13, each once.
pub proof fn default_scans_cover_all_channels()
    ensures
        forall|channel: u8| 1 <= channel <= 13 <==> linear_channels().contains(channel),
        forall|channel: u8| 1 <= channel <= 13 <==> non_overlapping_channels().contains(channel),
        linear_channels().no_duplicates(),
        non_overlapping_channels().no_duplicates(),
{
    let linear = linear_channels();
    let mixed = non_overlapping_channels();
    assert forall|channel: u8| 1 <= channel <= 13 <==> linear.contains(channel) by {
        if 1 <= channel <= 13 {
            assert(linear[channel - 1] == channel);
        }
    }
    assert forall|channel: u8| 1 <= channel <= 13 <==> mixed.contains(channel) by {
        assert(mixed[0] == 1 && mixed[3] == 2 && mixed[6] == 3 && mixed[9] == 4 && mixed[11] == 5
            && mixed[1] == 6 && mixed[4] == 7 && mixed[7] == 8 && mixed[10] == 9 && mixed[12] == 10
            && mixed[2] == 11 && mixed[5] == 12 && mixed[8] == 13);
        if mixed.contains(channel) {
            let i = choose|i: int| 0 <= i < mixed.len() && mixed[i] == channel;
            assert(i == 0 || i == 1 || i == 2 || i == 3 || i == 4 || i == 5 || i == 6 || i == 7 || i
                == 8 || i == 9 || i == 10 || i == 11 || i == 12);
        }
    }
}

/// A scan visits the channels that its strategy is for: the one named or tuned to, those given, all in
/// ascending order, or all in groups of three that do not overlap, five channels apart.
pub proof fn strategies_visit_their_channels(channel: u8, current: u8, custom: &[u8])
    ensures
        ScanStrategy::Single(channel).spec_channels(current) == seq![channel],
        ScanStrategy::CurrentChannel.spec_channels(current) == seq![current],
        ScanStrategy::Custom(custom).spec_channels(current) == custom@,
        ScanStrategy::Linear.spec_channels(current).len() == 13,
        forall|i: int|
            0 <= i < 13 ==> #[trigger] ScanStrategy::Linear.spec_channels(current)[i] == i + 1,
        ({
            let mixed = ScanStrategy::NonOverlappingFirst.spec_channels(current);
            &&& mixed.len() == 13
            &&& mixed[0] == 1 && mixed[1] == 6 && mixed[2] == 11
            &&& mixed[3] == 2 && mixed[4] == 7 && mixed[5] == 12
            &&& mixed[6] == 3 && mixed[7] == 8 && mixed[8] == 13
            &&& mixed[9] == 4 && mixed[10] == 9
            &&& mixed[11] == 5 && mixed[12] == 10
        }),
{
}

/// A scan visits its channels one after the other. After the last one it is through, unless it is
/// continuous: then it starts over.
pub proof fn scans_visit_one_channel_after_the_other(scan: Scan)
    ensures
        scan.position < scan.channels@.len() ==> scan.upcoming() == Some(scan.position as int),
        scan.position >= scan.channels@.len() && !scan.continuous ==> scan.upcoming() is None,
        scan.position >= scan.channels@.len() && scan.continuous && scan.channels@.len() > 0
            ==> scan.upcoming() == Some(0int),
        scan.channels@.len() == 0 ==> scan.upcoming() is None,
{
}

/// Each step of a scan tunes the radio to the next of its channels, if there is such a channel, and
/// touches nothing else.
pub proof fn scans_tune_the_radio(
    before: Scan,
    after: Scan,
    state: SharedLMacState,
    state_after: SharedLMacState,
    step: Result<ScanStep, LMacError>,
)
    requires
        before.position <= before.channels@.len(),
        after.has_advanced(before, state, state_after, step),
    ensures
        before.position < before.channels@.len() ==> {
            let channel = before.channels@[before.position as int];
            &&& after.position == before.position + 1
            &&& 1 <= channel <= 14 ==> {
                &&& step == Ok::<ScanStep, LMacError>(ScanStep::Listen(channel))
                &&& state_after.channel_state.channel == channel
            }
            &&& !(1 <= channel <= 14) ==> step == Err::<ScanStep, LMacError>(
                LMacError::InvalidChannel,
            )
        },
        before.position == before.channels@.len() && !before.continuous ==> {
            &&& step == Ok::<ScanStep, LMacError>(ScanStep::Complete)
            &&& state_after == state
        },
        before.position == before.channels@.len() && before.continuous && before.channels@.len() > 0
            ==> after.position == 1,
        state_after.channel_state.locks == state.channel_state.locks,
        state_after.channel_state.off_channel_operation_interface
            == state.channel_state.off_channel_operation_interface,
        state_after.key_slot_manager == state.key_slot_manager,
        after.channels@ == before.channels@,
{
}

} // verus!
