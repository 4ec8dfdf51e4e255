//! The flashing tool's state and how each event changes it.
//!
//! The state machine decides; the caller performs the effect it names (a
//! drive scan, a file dialog, a flash run) and feeds the outcome back as the
//! next event. The progress figure itself is kept by the caller, which
//! applies the `ProgressChange` of each reaction to it.
use vstd::prelude::*;
use crate::drive_model::DriveModel;
use crate::image_model::ImageModel;

verus! {

/// Something that happened: a user action or the outcome of an effect.
pub enum Event {
    LoadDrives,
    DrivesLoaded(Vec<DriveModel>),
    DriveSelected(DriveModel),
    SelectImage,
    ImageSelected(ImageModel),
    StartFlash,
    /// A progress figure arrived; the caller holds its value.
    FlashProgress,
    FlashComplete,
    FlashError(String),
    Refresh,
    ClearError,
    NoOp,
}

/// Outside work that the caller is to perform after an event.
#[derive(Debug, Clone, Copy, PartialEq, Eq, Structural)]
pub enum Effect {
    /// Nothing to do.
    Nothing,
    /// Deliver a `LoadDrives` event.
    RequestDriveLoad,
    /// Scan for drives; deliver `DrivesLoaded`, or `FlashError` on failure.
    ScanDrives,
    /// Ask the user for an image file; deliver `ImageSelected` or `NoOp`.
    PickImageFile,
    /// Run the flash; deliver `FlashComplete`, or `FlashError` on failure.
    RunFlash,
}

/// What becomes of the progress figure after an event.
#[derive(Debug, Clone, Copy, PartialEq, Eq, Structural)]
pub enum ProgressChange {
    /// It stays as it was.
    Keep,
    /// It goes back to zero.
    Reset,
    /// It becomes one (all done).
    Complete,
    /// It takes the value that came with a `FlashProgress` event.
    Reported,
}

/// The answer to an event: the effect to perform and the progress change.
#[derive(Debug, Clone, Copy, PartialEq, Eq, Structural)]
pub struct Reaction {
    pub effect: Effect,
    pub progress: ProgressChange,
}

/// The application's state, but for the progress figure.
pub struct AppState {
    pub drives: Vec<DriveModel>,
    pub selected_drive: Option<DriveModel>,
    pub selected_image: Option<ImageModel>,
    pub is_loading: bool,
    pub is_flashing: bool,
    pub error: Option<String>,
    pub validation_message: Option<String>,
    pub is_valid: bool,
}

/// The state as contracts speak of it: messages by their text.
pub struct AppView {
    pub drives: Seq<DriveModel>,
    pub selected_drive: Option<DriveModel>,
    pub selected_image: Option<ImageModel>,
    pub is_loading: bool,
    pub is_flashing: bool,
    pub error: Option<String>,
    pub validation_message: Option<Seq<char>>,
    pub is_valid: bool,
}

impl View for AppState {
    type V = AppView;

    open spec fn view(&self) -> AppView {
        AppView {
            drives: self.drives@,
            selected_drive: self.selected_drive,
            selected_image: self.selected_image,
            is_loading: self.is_loading,
            is_flashing: self.is_flashing,
            error: self.error,
            validation_message: self.validation_message.deep_view(),
            is_valid: self.is_valid,
        }
    }
}

/// Both an image and a drive are selected, and the drive is large enough to
/// contain the image: its capacity is at least the image's size.
pub open spec fn selection_fits(image: Option<ImageModel>, drive: Option<DriveModel>) -> bool {
    match (image, drive) {
        (Some(i), Some(d)) => d.total_space >= i.size,
        _ => false,
    }
}

/// The message that validating a selection shows.
pub open spec fn validation_text(image: Option<ImageModel>, drive: Option<DriveModel>) -> Seq<
    char,
> {
    match (image, drive) {
        (Some(i), Some(d)) => if d.total_space >= i.size {
            "Ready to flash!"@
        } else {
            "Drive doesn't have enough space"@
        },
        _ => "Please select both image and drive"@,
    }
}

/// `s` with its selection validated afresh.
pub open spec fn revalidated(s: AppView) -> AppView {
    AppView {
        is_valid: selection_fits(s.selected_image, s.selected_drive),
        validation_message: Some(validation_text(s.selected_image, s.selected_drive)),
        ..s
    }
}

/// The reaction that asks for nothing.
pub open spec fn quiet() -> Reaction {
    Reaction { effect: Effect::Nothing, progress: ProgressChange::Keep }
}

/// The state after event `e` in state `s`, and the reaction to it.
pub open spec fn step(s: AppView, e: Event) -> (AppView, Reaction) {
    match e {
        Event::LoadDrives => (
            AppView { is_loading: true, error: None, ..s },
            Reaction { effect: Effect::ScanDrives, progress: ProgressChange::Keep },
        ),
        Event::DrivesLoaded(drives) => (
            revalidated(AppView { is_loading: false, drives: drives@, ..s }),
            quiet(),
        ),
        Event::DriveSelected(drive) => (
            revalidated(AppView { selected_drive: Some(drive), ..s }),
            quiet(),
        ),
        Event::SelectImage => (
            s,
            Reaction { effect: Effect::PickImageFile, progress: ProgressChange::Keep },
        ),
        Event::ImageSelected(image) => (
            revalidated(AppView { selected_image: Some(image), ..s }),
            quiet(),
        ),
        Event::StartFlash => if s.is_valid {
            (
                AppView { is_flashing: true, ..s },
                Reaction { effect: Effect::RunFlash, progress: ProgressChange::Reset },
            )
        } else {
            (s, quiet())
        },
        Event::FlashProgress => (
            s,
            Reaction { effect: Effect::Nothing, progress: ProgressChange::Reported },
        ),
        Event::FlashComplete => (
            AppView {
                is_flashing: false,
                validation_message: Some("Flash completed successfully!"@),
                is_valid: true,
                ..s
            },
            Reaction { effect: Effect::Nothing, progress: ProgressChange::Complete },
        ),
        Event::FlashError(message) => (
            AppView { is_flashing: false, error: Some(message), ..s },
            quiet(),
        ),
        Event::Refresh => (
            AppView { is_loading: true, error: None, ..s },
            Reaction { effect: Effect::ScanDrives, progress: ProgressChange::Keep },
        ),
        Event::ClearError => (AppView { error: None, ..s }, quiet()),
        Event::NoOp => (s, quiet()),
    }
}

/// The state the application starts in.
pub open spec fn initial() -> AppView {
    AppView {
        drives: Seq::empty(),
        selected_drive: None,
        selected_image: None,
        is_loading: false,
        is_flashing: false,
        error: None,
        validation_message: None,
        is_valid: false,
    }
}

impl AppState {
    /// The starting state, with the effect that starts the first drive scan.
    pub fn new() -> (r: (AppState, Effect))
        ensures
            r.0@ == initial(),
            r.1 == Effect::RequestDriveLoad,
    {
        let s = AppState {
            drives: Vec::new(),
            selected_drive: None,
            selected_image: None,
            is_loading: false,
            is_flashing: false,
            error: None,
            validation_message: None,
            is_valid: false,
        };
        assert(s@.drives =~= Seq::<DriveModel>::empty());
        (s, Effect::RequestDriveLoad)
    }

    /// The window title.
    pub fn title(&self) -> (r: String)
        ensures
            r@ == "Flash Tool"@,
    {
        "Flash Tool".to_string()
    }

    /// Whether a flash can be started now: the selection is valid and no
    /// flash is running.
    pub fn ready_to_flash(&self) -> (r: bool)
        ensures
            r == (self.is_valid && !self.is_flashing),
    {
        self.is_valid && !self.is_flashing
    }

    /// Validates the current selection: valid exactly when the drive's
    /// capacity is at least the image's size, with the matching message.
    pub fn validate_selection(&mut self)
        ensures
            final(self)@ == revalidated(old(self)@),
            match (old(self).selected_image, old(self).selected_drive) {
                (Some(i), Some(d)) => {
                    &&& final(self).is_valid == (d.total_space >= i.size)
                    &&& final(self).validation_message.deep_view() == Some(
                        if d.total_space >= i.size {
                            "Ready to flash!"@
                        } else {
                            "Drive doesn't have enough space"@
                        },
                    )
                },
                _ => {
                    &&& !final(self).is_valid
                    &&& final(self).validation_message.deep_view() == Some(
                        "Please select both image and drive"@,
                    )
                },
            },
    {
        let fits = match (&self.selected_image, &self.selected_drive) {
            (Some(image), Some(drive)) => drive.total_space >= image.size,
            _ => false,
        };
        let message = match (&self.selected_image, &self.selected_drive) {
            (Some(image), Some(drive)) => if drive.total_space >= image.size {
                "Ready to flash!".to_string()
            } else {
                "Drive doesn't have enough space".to_string()
            },
            _ => "Please select both image and drive".to_string(),
        };
        self.is_valid = fits;
        self.validation_message = Some(message);
    }

    /// Applies `event`: changes the state as `step` says and returns the
    /// reaction to it.
    pub fn update(&mut self, event: Event) -> (r: Reaction)
        ensures
            (final(self)@, r) == step(old(self)@, event),
            event matches Event::DrivesLoaded(ds) ==> final(self).drives@ == ds@,
            event matches Event::DriveSelected(d) ==> final(self).is_valid == (match old(
                self,
            ).selected_image {
                Some(i) => d.total_space >= i.size,
                None => false,
            }),
            event matches Event::ImageSelected(i) ==> final(self).is_valid == (match old(
                self,
            ).selected_drive {
                Some(d) => d.total_space >= i.size,
                None => false,
            }),
    {
        match event {
            Event::LoadDrives => {
                self.is_loading = true;
                self.error = None;
                Reaction { effect: Effect::ScanDrives, progress: ProgressChange::Keep }
            },
            Event::DrivesLoaded(drives) => {
                self.is_loading = false;
                self.drives = drives;
                self.validate_selection();
                Reaction { effect: Effect::Nothing, progress: ProgressChange::Keep }
            },
            Event::DriveSelected(drive) => {
                self.selected_drive = Some(drive);
                self.validate_selection();
                Reaction { effect: Effect::Nothing, progress: ProgressChange::Keep }
            },
            Event::SelectImage => {
                Reaction { effect: Effect::PickImageFile, progress: ProgressChange::Keep }
            },
            Event::ImageSelected(image) => {
                self.selected_image = Some(image);
                self.validate_selection();
                Reaction { effect: Effect::Nothing, progress: ProgressChange::Keep }
            },
            Event::StartFlash => {
                if self.is_valid {
                    self.is_flashing = true;
                    Reaction { effect: Effect::RunFlash, progress: ProgressChange::Reset }
                } else {
                    Reaction { effect: Effect::Nothing, progress: ProgressChange::Keep }
                }
            },
            Event::FlashProgress => {
                Reaction { effect: Effect::Nothing, progress: ProgressChange::Reported }
            },
            Event::FlashComplete => {
                self.is_flashing = false;
                self.validation_message = Some("Flash completed successfully!".to_string());
                self.is_valid = true;
                Reaction { effect: Effect::Nothing, progress: ProgressChange::Complete }
            },
            Event::FlashError(message) => {
                self.is_flashing = false;
                self.error = Some(message);
                Reaction { effect: Effect::Nothing, progress: ProgressChange::Keep }
            },
            Event::Refresh => {
                self.is_loading = true;
                self.error = None;
                Reaction { effect: Effect::ScanDrives, progress: ProgressChange::Keep }
            },
            Event::ClearError => {
                self.error = None;
                Reaction { effect: Effect::Nothing, progress: ProgressChange::Keep }
            },
            Event::NoOp => Reaction { effect: Effect::Nothing, progress: ProgressChange::Keep },
        }
    }
}

/// Whether `drive` is the selected drive, judged by its id.
pub fn is_selected_drive(selected: &Option<DriveModel>, drive: &DriveModel) -> (r: bool)
    ensures
        r == (match selected {
            Some(d) => d.id@ == drive.id@,
            None => false,
        }),
{
    match selected {
        Some(d) => d.id == drive.id,
        None => false,
    }
}


// ---------------------------------------------------------------------------
// Laws of the state machine
// ---------------------------------------------------------------------------

/// A selection marked valid fits its drive.
pub open spec fn validity_sound(s: AppView) -> bool {
    s.is_valid ==> selection_fits(s.selected_image, s.selected_drive)
}

/// The application starts with no selection, nothing marked valid, and asks
/// for a drive load first.
pub proof fn lemma_initial_state()
    ensures
        validity_sound(initial()),
        !initial().is_valid,
        !initial().is_flashing,
{
}

/// Every event keeps "valid implies the drive can contain the image",
/// except a completion report that arrives while the selection does not fit:
/// completion marks the selection valid regardless.
pub proof fn lemma_step_keeps_validity_sound(s: AppView, e: Event)
    requires
        validity_sound(s),
        !(e is FlashComplete && !selection_fits(s.selected_image, s.selected_drive)),
    ensures
        validity_sound(step(s, e).0),
{
}

/// A flash is started exactly when the selection is valid; a refused start
/// changes nothing and asks for nothing.
pub proof fn lemma_flash_starts_only_when_valid(s: AppView)
    ensures
        (step(s, Event::StartFlash).1.effect == Effect::RunFlash) == s.is_valid,
        !s.is_valid ==> step(s, Event::StartFlash) == (s, quiet()),
        s.is_valid ==> step(s, Event::StartFlash).0.is_flashing,
{
}

/// In a state where validity is sound, a flash that starts has an image and
/// a drive, and the drive's capacity is at least the image's size.
pub proof fn lemma_started_flash_fits(s: AppView)
    requires
        validity_sound(s),
        step(s, Event::StartFlash).1.effect == Effect::RunFlash,
    ensures
        s.selected_image is Some,
        s.selected_drive is Some,
        s.selected_drive->0.total_space >= s.selected_image->0.size,
{
}

/// Refreshing and loading drives are the same request.
pub proof fn lemma_refresh_is_load(s: AppView)
    ensures
        step(s, Event::Refresh) == step(s, Event::LoadDrives),
{
}

/// After new drives or a new selection, validity and its message follow
/// from the selection alone.
pub proof fn lemma_selection_events_revalidate(s: AppView, e: Event)
    requires
        e is DrivesLoaded || e is DriveSelected || e is ImageSelected,
    ensures
        step(s, e).0.is_valid == selection_fits(
            step(s, e).0.selected_image,
            step(s, e).0.selected_drive,
        ),
        step(s, e).0.validation_message == Some(
            validation_text(step(s, e).0.selected_image, step(s, e).0.selected_drive),
        ),
{
}

/// A completed or failed flash is no longer running; a failure keeps its
/// message as the error.
pub proof fn lemma_flash_outcome_ends_flashing(s: AppView, e: Event)
    requires
        e is FlashComplete || e is FlashError,
    ensures
        !step(s, e).0.is_flashing,
        e matches Event::FlashError(m) ==> step(s, e).0.error == Some(m),
{
}

/// Loading starts by clearing the error, and clearing the error changes
/// nothing else.
pub proof fn lemma_error_clearing(s: AppView)
    ensures
        step(s, Event::LoadDrives).0.error is None,
        step(s, Event::ClearError).0 == (AppView { error: None, ..s }),
{
}


/// Loading drives replaces the list with exactly the drives the scan found,
/// whatever was listed before.
pub proof fn lemma_loaded_drives_replace_list(s: AppView, t: AppView, ds: Vec<DriveModel>)
    ensures
        step(s, Event::DrivesLoaded(ds)).0.drives == ds@,
        step(s, Event::DrivesLoaded(ds)).0.drives == step(t, Event::DrivesLoaded(ds)).0.drives,
        !step(s, Event::DrivesLoaded(ds)).0.is_loading,
{
}

/// Selecting a drive makes the selection valid exactly when an image is
/// selected and the drive's capacity is at least the image's size; the
/// space already used on the drive plays no part, since flashing overwrites it.
pub proof fn lemma_drive_choice_judged_by_capacity(s: AppView, d: DriveModel, e: DriveModel)
    requires
        d.total_space == e.total_space,
    ensures
        step(s, Event::DriveSelected(d)).0.is_valid == (match s.selected_image {
            Some(i) => d.total_space >= i.size,
            None => false,
        }),
        step(s, Event::DriveSelected(d)).0.is_valid == step(s, Event::DriveSelected(e)).0.is_valid,
        step(s, Event::DriveSelected(d)).0.validation_message == Some(
            match s.selected_image {
                Some(i) => if d.total_space >= i.size {
                    "Ready to flash!"@
                } else {
                    "Drive doesn't have enough space"@
                },
                None => "Please select both image and drive"@,
            },
        ),
{
}

/// Selecting an image makes the selection valid exactly when a drive is
/// selected whose capacity is at least the image's size.
pub proof fn lemma_image_choice_judged_by_capacity(s: AppView, i: ImageModel)
    ensures
        step(s, Event::ImageSelected(i)).0.is_valid == (match s.selected_drive {
            Some(d) => d.total_space >= i.size,
            None => false,
        }),
{
}


/// What each event does, field by field: loading and refreshing start a scan
/// and clear the error; choosing an image asks for a file and changes
/// nothing; a progress report changes nothing but the progress figure; a
/// completion ends flashing, marks the selection valid with its message and
/// fills the progress; a selection stores the chosen drive or image and
/// keeps the rest; NoOp changes nothing.
pub proof fn lemma_what_each_event_does(s: AppView, d: DriveModel, i: ImageModel)
    ensures
        ({
            let (t, r) = step(s, Event::LoadDrives);
            &&& t.is_loading && t.error is None
            &&& t.drives == s.drives && t.selected_drive == s.selected_drive
            &&& t.selected_image == s.selected_image && t.is_valid == s.is_valid
            &&& r.effect == Effect::ScanDrives && r.progress == ProgressChange::Keep
        }),
        step(s, Event::SelectImage) == (
            s,
            Reaction { effect: Effect::PickImageFile, progress: ProgressChange::Keep },
        ),
        step(s, Event::FlashProgress) == (
            s,
            Reaction { effect: Effect::Nothing, progress: ProgressChange::Reported },
        ),
        step(s, Event::NoOp) == (s, Reaction { effect: Effect::Nothing, progress: ProgressChange::Keep }),
        ({
            let (t, r) = step(s, Event::FlashComplete);
            &&& !t.is_flashing && t.is_valid
            &&& t.validation_message == Some("Flash completed successfully!"@)
            &&& t.drives == s.drives && t.selected_drive == s.selected_drive
            &&& t.selected_image == s.selected_image && t.error == s.error
            &&& r.effect == Effect::Nothing && r.progress == ProgressChange::Complete
        }),
        ({
            let (t, r) = step(s, Event::DriveSelected(d));
            &&& t.selected_drive == Some(d) && t.selected_image == s.selected_image
            &&& t.drives == s.drives && t.error == s.error && t.is_flashing == s.is_flashing
            &&& r.effect == Effect::Nothing && r.progress == ProgressChange::Keep
        }),
        ({
            let (t, r) = step(s, Event::ImageSelected(i));
            &&& t.selected_image == Some(i) && t.selected_drive == s.selected_drive
            &&& t.drives == s.drives && t.error == s.error && t.is_flashing == s.is_flashing
            &&& r.effect == Effect::Nothing && r.progress == ProgressChange::Keep
        }),
{
}

} // verus!
