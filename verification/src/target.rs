use vstd::prelude::*;

verus! {

/// The expression that resets the board and reconnects to it.
pub const BOARD_RESET_EXPRESSION: &'static str =
    "GEL_AdvancedReset(\"Board Reset (automatic connect/disconnect)\")";

/// One operation on the debug target or on the firmware copied into it.
#[derive(Copy, Clone, Debug, PartialEq, Eq, Structural)]
pub enum TargetAction {
    Halt,
    Reset,
    /// Evaluate `BOARD_RESET_EXPRESSION`.
    EvaluateBoardReset,
    /// Copy the firmware into RAM and point the CPU at it.
    InjectFirmware,
    RunAsynch,
    Disconnect,
    StopServer,
}

/// What getting the target into the firmware takes, once it is known whether
/// the CPU is halted: halt it if it is not, then reset, reset the board,
/// inject the firmware and let it run.
pub open spec fn reset_into_firmware_spec(halted: bool) -> Seq<TargetAction> {
    let rest = seq![
        TargetAction::Reset,
        TargetAction::EvaluateBoardReset,
        TargetAction::InjectFirmware,
        TargetAction::RunAsynch,
    ];
    if halted {
        rest
    } else {
        seq![TargetAction::Halt] + rest
    }
}

/// The operations, in order, that reset the target into the firmware.
pub fn reset_into_firmware_actions(halted: bool) -> (res: Vec<TargetAction>)
    ensures
        res@ == reset_into_firmware_spec(halted),
{
    let mut res: Vec<TargetAction> = Vec::new();
    if !halted {
        res.push(TargetAction::Halt);
    }
    res.push(TargetAction::Reset);
    res.push(TargetAction::EvaluateBoardReset);
    res.push(TargetAction::InjectFirmware);
    res.push(TargetAction::RunAsynch);
    assert(res@ =~= reset_into_firmware_spec(halted));
    res
}

/// The operations, in order, that release the target when the tool is done.
pub fn shutdown_actions() -> (res: Vec<TargetAction>)
    ensures
        res@ == seq![
            TargetAction::Halt,
            TargetAction::Reset,
            TargetAction::Disconnect,
            TargetAction::StopServer,
        ],
{
    let mut res: Vec<TargetAction> = Vec::new();
    res.push(TargetAction::Halt);
    res.push(TargetAction::Reset);
    res.push(TargetAction::Disconnect);
    res.push(TargetAction::StopServer);
    assert(res@ =~= seq![
        TargetAction::Halt,
        TargetAction::Reset,
        TargetAction::Disconnect,
        TargetAction::StopServer,
    ]);
    res
}

/// The abstract state of a sequence of target operations.
pub ghost struct TargetSequenceView {
    pub actions: Seq<TargetAction>,
    /// How many operations were handed out.
    pub position: nat,
    /// Whether one of them failed.
    pub failed: bool,
}

/// Target operations handed out one at a time, in order; the first failure
/// ends the sequence.
pub struct TargetSequence {
    actions: Vec<TargetAction>,
    position: usize,
    failed: bool,
}

impl View for TargetSequence {
    type V = TargetSequenceView;

    closed spec fn view(&self) -> TargetSequenceView {
        TargetSequenceView {
            actions: self.actions@,
            position: self.position as nat,
            failed: self.failed,
        }
    }
}

impl TargetSequence {
    /// The invariant that every step keeps.
    pub closed spec fn wf(&self) -> bool {
        self.position <= self.actions.len()
    }

    /// The sequence that resets the target into the firmware.
    pub fn reset_into_firmware(halted: bool) -> (res: TargetSequence)
        ensures
            res.wf(),
            res@.actions == reset_into_firmware_spec(halted),
            res@.position == 0,
            !res@.failed,
    {
        TargetSequence { actions: reset_into_firmware_actions(halted), position: 0, failed: false }
    }

    /// The sequence that releases the target.
    pub fn shutdown() -> (res: TargetSequence)
        ensures
            res.wf(),
            res@.actions == seq![
                TargetAction::Halt,
                TargetAction::Reset,
                TargetAction::Disconnect,
                TargetAction::StopServer,
            ],
            res@.position == 0,
            !res@.failed,
    {
        TargetSequence { actions: shutdown_actions(), position: 0, failed: false }
    }

    /// Takes whether the operation handed out last failed, and gives the next
    /// one: none once an operation failed or all were handed out.
    pub fn next_action(&mut self, previous_failed: bool) -> (action: Option<TargetAction>)
        requires
            old(self).wf(),
        ensures
            final(self).wf(),
            final(self)@.actions == old(self)@.actions,
            final(self)@.failed == (old(self)@.failed || previous_failed),
            if final(self)@.failed || old(self)@.position == old(self)@.actions.len() {
                &&& action is None
                &&& final(self)@.position == old(self)@.position
            } else {
                &&& action == Some(old(self)@.actions[old(self)@.position as int])
                &&& final(self)@.position == old(self)@.position + 1
            },
    {
        if previous_failed {
            self.failed = true;
        }
        if self.failed || self.position == self.actions.len() {
            None
        } else {
            let action = self.actions[self.position];
            self.position = self.position + 1;
            Some(action)
        }
    }
}

} // verus!
