//! The per-playlist catalog: the ordered tracks that loaded successfully,
//! and the traversal position.

use vstd::prelude::*;

use crate::diag::Diagnostic;
use crate::diag::DiagnosticModel;
use crate::track::LoadedTrack;
use crate::track::TrackDescriptor;
use crate::track::TrackModel;
use crate::track::clamped_repeats;
use crate::track::max_track_duration_ms;
use crate::track::spec_display_name;

verus! {

/// The models of a sequence of loaded tracks, in order.
pub open spec fn track_models(tracks: Seq<LoadedTrack>) -> Seq<TrackModel> {
    Seq::new(tracks.len(), |i: int| tracks[i]@)
}

/// The ordered set of successfully loaded tracks of one playlist, ready
/// for playback, together with the traversal position. An index equal to
/// the number of tracks means the catalog is exhausted.
pub struct Catalog {
    pub name: Option<String>,
    pub tracks: Vec<LoadedTrack>,
    pub index: usize,
}

/// The mathematical content of a [`Catalog`].
#[verifier::ext_equal]
pub ghost struct CatalogModel {
    pub name: Option<Seq<char>>,
    pub tracks: Seq<TrackModel>,
    pub index: int,
}

impl View for Catalog {
    type V = CatalogModel;

    open spec fn view(&self) -> CatalogModel {
        CatalogModel {
            name: match self.name {
                Some(n) => Some(n@),
                None => None,
            },
            tracks: track_models(self.tracks@),
            index: self.index as int,
        }
    }
}

impl CatalogModel {
    /// The traversal position is within bounds (the position one past the
    /// last track is the exhausted state) and every track is well formed.
    pub open spec fn wf(self) -> bool {
        &&& 0 <= self.index <= self.tracks.len()
        &&& forall|i: int| 0 <= i < self.tracks.len() ==> #[trigger] self.tracks[i].wf()
    }

    /// No track is left to play.
    pub open spec fn exhausted(self) -> bool {
        self.index == self.tracks.len()
    }

    /// The track the traversal stands on.
    pub open spec fn current(self) -> TrackModel
        recommends !self.exhausted(), self.wf(),
    {
        self.tracks[self.index]
    }
}

/// What the device collaborator reports about one descriptor: the probed
/// duration (meaningful only when probing succeeded) and the failures, if
/// any, of the two loading dimensions.
pub struct LoadReport {
    pub duration_ms: u64,
    pub open_error: Option<String>,
    pub probe_error: Option<String>,
}

impl LoadReport {
    /// Both loading dimensions succeeded, so the track enters the catalog.
    pub open spec fn admitted(self) -> bool {
        self.open_error is None && self.probe_error is None
    }
}

/// The catalog entry a descriptor and its successful report yield.
pub open spec fn admitted_entry(descriptor: TrackDescriptor, report: LoadReport) -> TrackModel {
    TrackModel {
        name: spec_display_name(descriptor@),
        source: descriptor@.source,
        duration_ms: if report.duration_ms <= max_track_duration_ms() {
            report.duration_ms as int
        } else {
            max_track_duration_ms()
        },
        remaining_repeats: clamped_repeats(descriptor@.repeats),
    }
}

/// The tracks admitted to the catalog: those whose report shows both
/// dimensions succeeded, in the order the descriptors arrive, renumbered
/// contiguously.
pub open spec fn admitted_tracks(
    descriptors: Seq<TrackDescriptor>,
    reports: Seq<LoadReport>,
) -> Seq<TrackModel>
    decreases descriptors.len(),
{
    if descriptors.len() == 0 || reports.len() == 0 {
        Seq::empty()
    } else {
        let rest = admitted_tracks(descriptors.drop_first(), reports.drop_first());
        if reports.first().admitted() {
            seq![admitted_entry(descriptors.first(), reports.first())] + rest
        } else {
            rest
        }
    }
}

/// The diagnostics one descriptor's report yields: one line per failing
/// dimension, naming the track and the cause.
pub open spec fn report_diagnostics(
    descriptor: TrackDescriptor,
    report: LoadReport,
) -> Seq<DiagnosticModel> {
    let open_part: Seq<DiagnosticModel> = match report.open_error {
        Some(cause) => seq![
            DiagnosticModel {
                action: "opening the source of"@,
                subject: spec_display_name(descriptor@),
                cause: cause@,
            },
        ],
        None => Seq::empty(),
    };
    let probe_part: Seq<DiagnosticModel> = match report.probe_error {
        Some(cause) => seq![
            DiagnosticModel {
                action: "probing the duration of"@,
                subject: spec_display_name(descriptor@),
                cause: cause@,
            },
        ],
        None => Seq::empty(),
    };
    open_part + probe_part
}

/// All diagnostics of a loading pass, in descriptor order.
pub open spec fn loading_diagnostics(
    descriptors: Seq<TrackDescriptor>,
    reports: Seq<LoadReport>,
) -> Seq<DiagnosticModel>
    decreases descriptors.len(),
{
    if descriptors.len() == 0 || reports.len() == 0 {
        Seq::empty()
    } else {
        report_diagnostics(descriptors.first(), reports.first()) + loading_diagnostics(
            descriptors.drop_first(),
            reports.drop_first(),
        )
    }
}

impl Catalog {
    /// Builds the catalog of one playlist from the descriptors (already in
    /// playback order) and the loading reports the device collaborator
    /// produced for them, one report per descriptor. Tracks whose report
    /// shows a failure are dropped, each with a diagnostic per failing
    /// dimension; the admitted tracks keep their order and are renumbered
    /// contiguously. The traversal starts on the first admitted track.
    pub fn build(
        name: Option<String>,
        descriptors: Vec<TrackDescriptor>,
        reports: Vec<LoadReport>,
    ) -> (result: (Catalog, Vec<Diagnostic>))
        requires
            descriptors@.len() == reports@.len(),
        ensures
            result.0@.name == (match name {
                Some(n) => Some(n@),
                None => None::<Seq<char>>,
            }),
            result.0@.tracks == admitted_tracks(descriptors@, reports@),
            result.0@.index == 0,
            result.0@.wf(),
            crate::diag::diagnostic_models(result.1@) == loading_diagnostics(
                descriptors@,
                reports@,
            ),
    {
        let ghost all_descriptors = descriptors@;
        let ghost all_reports = reports@;
        let mut descriptors = descriptors;
        let mut reports = reports;
        let mut tracks: Vec<LoadedTrack> = Vec::new();
        let mut diagnostics: Vec<Diagnostic> = Vec::new();
        while descriptors.len() > 0
            invariant
                descriptors@.len() == reports@.len(),
                track_models(tracks@) + admitted_tracks(descriptors@, reports@) =~= admitted_tracks(
                    all_descriptors,
                    all_reports,
                ),
                crate::diag::diagnostic_models(diagnostics@) + loading_diagnostics(
                    descriptors@,
                    reports@,
                ) =~= loading_diagnostics(all_descriptors, all_reports),
                forall|i: int| 0 <= i < tracks@.len() ==> (#[trigger] tracks@[i]@).wf(),
            decreases descriptors@.len(),
        {
            let ghost descriptors_before = descriptors@;
            let ghost reports_before = reports@;
            let descriptor = descriptors.remove(0);
            let report = reports.remove(0);
            proof {
                assert(descriptors_before.drop_first() =~= descriptors@);
                assert(reports_before.drop_first() =~= reports@);
            }
            let subject = LoadedTrack::display_name(&descriptor);
            let mut dropped = false;
            if let Some(cause) = report.open_error {
                diagnostics.push(
                    Diagnostic::new(String::from_str("opening the source of"), subject.clone(), cause),
                );
                dropped = true;
            }
            if let Some(cause) = report.probe_error {
                diagnostics.push(
                    Diagnostic::new(
                        String::from_str("probing the duration of"),
                        subject.clone(),
                        cause,
                    ),
                );
                dropped = true;
            }
            if !dropped {
                let track = LoadedTrack::new(
                    subject,
                    descriptor.source,
                    report.duration_ms,
                    descriptor.repeats,
                );
                let ghost tracks_before = tracks@;
                tracks.push(track);
                proof {
                    assert(track_models(tracks@) =~= track_models(tracks_before) + seq![track@]);
                }
            }
        }
        proof {
            assert(track_models(tracks@) =~= admitted_tracks(all_descriptors, all_reports));
            assert(crate::diag::diagnostic_models(diagnostics@) =~= loading_diagnostics(
                all_descriptors,
                all_reports,
            ));
        }
        let catalog = Catalog { name, tracks, index: 0 };
        (catalog, diagnostics)
    }
}

} // verus!
