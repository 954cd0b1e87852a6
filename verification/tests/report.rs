use rana::candidate::{candidate_from_mnemonic, Candidate};
use rana::matcher::MatchOutcome;
use rana::report::{
    iteration_summary, key_report, non_matching_key, outcome_report, secret_qr, Headline,
    IterationSummary,
};
use rana::worker::StepResult;
use rana::similarity::Similarity;

fn report_candidate() -> Candidate {
    let secret = hex::decode("67dea2ed018072d675f5415ecfaed7d2597555e202d85b3d65ea4e58d2d92ffa").unwrap();
    let public = hex::decode("3bf0c63fcb93463407af97a5e5ee64fa883d107ef9e558472c4eb9aaaefa459d").unwrap();
    Candidate::new(secret, public, None).unwrap()
}

#[test]
fn report_shows_the_keys_in_both_forms() {
    let report = key_report(&report_candidate(), "", 0);
    assert_eq!(report.headline, Headline::Plain);
    assert_eq!(report.public_hex, "3bf0c63fcb93463407af97a5e5ee64fa883d107ef9e558472c4eb9aaaefa459d");
    assert_eq!(report.secret_hex, "67dea2ed018072d675f5415ecfaed7d2597555e202d85b3d65ea4e58d2d92ffa");
    assert_eq!(report.npub, "npub180cvv07tjdrrgpa0j7j7tmnyl2yr6yr7l8j4s3evf6u64th6gkwsyjh6w6");
    assert_eq!(report.nsec, "nsec1vl029mgpspedva04g90vltkh6fvh240zqtv9k0t9af8935ke9laqsnlfe5");
    assert_eq!(report.mnemonic, None);
}

#[test]
fn headline_prefers_the_zero_bits_over_the_label() {
    let candidate = report_candidate();
    assert_eq!(key_report(&candidate, "", 12).headline, Headline::LeadingZeroBits(12));
    assert_eq!(key_report(&candidate, "cafe", 12).headline, Headline::LeadingZeroBits(12));
    assert_eq!(key_report(&candidate, "cafe", 0).headline, Headline::VanityNpub("cafe".to_string()));
    assert_eq!(key_report(&candidate, "", 0).headline, Headline::Plain);
}

#[test]
fn report_carries_the_mnemonic_of_the_candidate() {
    let phrase = "equal dragon fabric refuse stable cherry smoke allow alley easy never medal attend together lumber movie what sad siege weather matrix buffalo state shoot";
    let candidate = candidate_from_mnemonic(phrase, "").unwrap();
    let report = key_report(&candidate, "", 0);
    assert_eq!(report.mnemonic, Some(phrase.to_string()));
    assert_eq!(report.secret_hex, "06992419a8fe821dd8de03d4c300614e8feefb5ea936b76f89976dcace8aebee");
}

#[test]
fn outcomes_ask_for_their_reports() {
    let candidate = report_candidate();
    assert_eq!(outcome_report(&candidate, &MatchOutcome::NoMatch), None);
    let exact = MatchOutcome::ExactMatch { label: "cafe...babe".to_string(), leading_zero_bits: 0 };
    assert_eq!(outcome_report(&candidate, &exact), Some(key_report(&candidate, "cafe...babe", 0)));
    let by_bits = MatchOutcome::ExactMatch { label: String::new(), leading_zero_bits: 17 };
    assert_eq!(outcome_report(&candidate, &by_bits).unwrap().headline, Headline::LeadingZeroBits(17));
    let near = MatchOutcome::NearMatch {
        similarity: Similarity { matching: 3, total: 4 },
        target: "cafe".to_string(),
        body: "caf0rest".to_string(),
    };
    assert_eq!(
        outcome_report(&candidate, &near).unwrap().headline,
        Headline::VanityNpub("caf0rest".to_string())
    );
}

#[test]
fn summary_of_small_counts() {
    assert_eq!(
        iteration_summary(0, 0),
        IterationSummary { iterations: 0, leading_digit: 0, exponent: 0, rate: 0 }
    );
    assert_eq!(
        iteration_summary(7, 0),
        IterationSummary { iterations: 7, leading_digit: 7, exponent: 0, rate: 7 }
    );
    assert_eq!(
        iteration_summary(10, 1),
        IterationSummary { iterations: 10, leading_digit: 1, exponent: 1, rate: 10 }
    );
    assert_eq!(
        iteration_summary(99, 2),
        IterationSummary { iterations: 99, leading_digit: 9, exponent: 1, rate: 49 }
    );
}

#[test]
fn summary_of_large_counts() {
    assert_eq!(
        iteration_summary(4_815_162_342, 60),
        IterationSummary { iterations: 4_815_162_342, leading_digit: 4, exponent: 9, rate: 80_252_705 }
    );
    assert_eq!(
        iteration_summary(u64::MAX, u64::MAX),
        IterationSummary { iterations: u64::MAX, leading_digit: 1, exponent: 19, rate: 1 }
    );
    assert_eq!(iteration_summary(1_000_000, 3).exponent, 6);
    assert_eq!(iteration_summary(999_999, 3).exponent, 5);
    assert_eq!(iteration_summary(999_999, 3).leading_digit, 9);
}

#[test]
fn summary_agrees_with_the_decimal_text() {
    for n in [1u64, 9, 10, 11, 19, 20, 100, 101, 5000, 65535, 123456789, 10_000_000_000] {
        let text = n.to_string();
        let summary = iteration_summary(n, 7);
        assert_eq!(char::from(b'0' + summary.leading_digit), text.chars().next().unwrap());
        assert_eq!(summary.exponent as usize, text.len() - 1);
        assert_eq!(summary.rate, n / 7);
    }
}

#[test]
fn secret_key_is_drawn_as_a_qr_code() {
    let picture = secret_qr(&report_candidate()).unwrap();
    let lines: Vec<&str> = picture.lines().collect();
    assert!(lines.len() > 10);
    let width = lines[0].chars().count();
    assert!(width > 20);
    for line in &lines {
        assert_eq!(line.chars().count(), width);
        assert!(line.chars().all(|c| " \u{2584}\u{2580}\u{2588}".contains(c)));
    }
    let code = qrcode::QrCode::new("nsec1vl029mgpspedva04g90vltkh6fvh240zqtv9k0t9af8935ke9laqsnlfe5").unwrap();
    let expected = code
        .render::<qrcode::render::unicode::Dense1x2>()
        .dark_color(qrcode::render::unicode::Dense1x2::Light)
        .light_color(qrcode::render::unicode::Dense1x2::Dark)
        .build();
    assert_eq!(picture, expected);
    assert_ne!(picture, "nsec1vl029mgpspedva04g90vltkh6fvh240zqtv9k0t9af8935ke9laqsnlfe5");
}

#[test]
fn discarded_keys_are_shown_only_on_request() {
    let candidate = report_candidate();
    let idle = StepResult { outcomes: vec![], done: false };
    let found = StepResult {
        outcomes: vec![MatchOutcome::ExactMatch { label: String::new(), leading_zero_bits: 12 }],
        done: false,
    };
    assert_eq!(
        non_matching_key(&candidate, &idle, true),
        Some("3bf0c63fcb93463407af97a5e5ee64fa883d107ef9e558472c4eb9aaaefa459d".to_string())
    );
    assert_eq!(non_matching_key(&candidate, &idle, false), None);
    assert_eq!(non_matching_key(&candidate, &found, true), None);
    assert_eq!(non_matching_key(&candidate, &found, false), None);
}
