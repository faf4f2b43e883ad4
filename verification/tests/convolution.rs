use wakeup_alarm::filtered_source::{apply_gain, convolve, kernel_request, FilterError, KernelRequest};
use wakeup_alarm::fixed::{elapsed_since, rescale, times, ONE};

const HALF: i32 = 500_000;

#[test]
fn convolve_averages_neighbours() {
    let kernel = [HALF, HALF];
    let input = [ONE, 2 * ONE, 3 * ONE, 4 * ONE];
    let mut output = [0; 2];
    assert_eq!(convolve(&kernel, &input, &mut output), Ok(()));
    assert_eq!(output, [1_500_000, 2_500_000]);
}

#[test]
fn convolve_emits_input_less_kernel_samples() {
    let kernel = [HALF, HALF];
    let input = [ONE, 2 * ONE, 3 * ONE, 4 * ONE, 5 * ONE];
    let mut output = [0; 3];
    assert_eq!(convolve(&kernel, &input, &mut output), Ok(()));
    assert_eq!(output, [1_500_000, 2_500_000, 3_500_000]);
}

#[test]
fn convolve_matches_direct_summation() {
    let kernel = [100_000, -200_000, 300_000, 400_000];
    let input = [1_000_000, -500_000, 250_000, 750_000, -1_000_000, 125_000, 0];
    let mut output = [0; 3];
    assert_eq!(convolve(&kernel, &input, &mut output), Ok(()));
    for at in 0..3 {
        let mut sum: i128 = 0;
        for j in 0..4 {
            sum += input[at + j] as i128 * kernel[j] as i128;
        }
        assert_eq!(output[at] as i128, sum / 1_000_000);
    }
    assert_eq!(output, [575_000, -275_000, -375_000]);
}

#[test]
fn convolve_with_empty_kernel_gives_silence() {
    let kernel: [i32; 0] = [];
    let input = [ONE, -ONE, HALF];
    let mut output = [7; 3];
    assert_eq!(convolve(&kernel, &input, &mut output), Ok(()));
    assert_eq!(output, [0, 0, 0]);
}

#[test]
fn convolve_refuses_odd_kernel() {
    let kernel = [HALF, HALF, HALF];
    let input = [ONE; 8];
    let mut output = [9; 5];
    assert_eq!(
        convolve(&kernel, &input, &mut output),
        Err(FilterError::InvalidConvolutionShape)
    );
    assert_eq!(output, [9; 5]);
}

#[test]
fn convolve_refuses_short_input() {
    let kernel = [HALF; 4];
    let input = [ONE; 3];
    let mut output: [i32; 0] = [];
    assert_eq!(
        convolve(&kernel, &input, &mut output),
        Err(FilterError::InvalidConvolutionShape)
    );
}

#[test]
fn convolve_refuses_wrong_output_length() {
    let kernel = [HALF, HALF];
    let input = [ONE; 4];
    let mut output = [9; 3];
    assert_eq!(
        convolve(&kernel, &input, &mut output),
        Err(FilterError::InvalidConvolutionShape)
    );
    assert_eq!(output, [9; 3]);
    let mut short = [9; 1];
    assert_eq!(
        convolve(&kernel, &input, &mut short),
        Err(FilterError::InvalidConvolutionShape)
    );
}

#[test]
fn convolve_saturates() {
    let kernel = [i32::MAX, i32::MAX];
    let input = [i32::MAX, i32::MAX, i32::MIN, i32::MIN];
    let mut output = [0; 2];
    assert_eq!(convolve(&kernel, &input, &mut output), Ok(()));
    assert_eq!(output, [i32::MAX, -2_147]);
    let mut low = [0; 1];
    assert_eq!(
        convolve(&kernel, &[i32::MIN, i32::MIN, 0], &mut low),
        Ok(())
    );
    assert_eq!(low, [i32::MIN]);
}

#[test]
fn rescale_rounds_toward_zero() {
    assert_eq!(rescale(1_999_999), 1);
    assert_eq!(rescale(-1_999_999), -1);
    assert_eq!(rescale(999_999), 0);
    assert_eq!(rescale(-999_999), 0);
    assert_eq!(rescale(i128::MAX), i32::MAX);
    assert_eq!(rescale(i128::MIN), i32::MIN);
}

#[test]
fn times_multiplies_fractions() {
    assert_eq!(times(HALF, HALF), 250_000);
    assert_eq!(times(-HALF, ONE), -HALF);
    assert_eq!(times(3, 333_333), 0);
    assert_eq!(times(i32::MAX, i32::MAX), i32::MAX);
    assert_eq!(times(i32::MIN, i32::MAX), i32::MIN);
}

#[test]
fn elapsed_since_never_runs_backwards() {
    assert_eq!(elapsed_since(5_000, 3_000), 2_000);
    assert_eq!(elapsed_since(3_000, 5_000), 0);
    assert_eq!(elapsed_since(7, 7), 0);
    assert_eq!(elapsed_since(i64::MAX, i64::MIN), i64::MAX);
}

#[test]
fn apply_gain_limits_to_unit_range() {
    assert_eq!(apply_gain(HALF, HALF), 250_000);
    assert_eq!(apply_gain(HALF, 3 * ONE), ONE);
    assert_eq!(apply_gain(HALF, -3 * ONE), -ONE);
    assert_eq!(apply_gain(-HALF, ONE), -HALF);
    assert_eq!(apply_gain(i32::MAX, i32::MAX), ONE);
    assert_eq!(apply_gain(i32::MIN, i32::MAX), -ONE);
    assert_eq!(apply_gain(HALF, 0), 0);
}

#[test]
fn kernel_request_lowers_cutoff_to_half_the_sample_rate() {
    assert_eq!(
        kernel_request(800, 44_100),
        Ok(KernelRequest { cutoff_hz: 800, sample_rate: 44_100 })
    );
    assert_eq!(
        kernel_request(100_000, 44_100),
        Ok(KernelRequest { cutoff_hz: 22_050, sample_rate: 44_100 })
    );
    assert_eq!(
        kernel_request(i64::MAX, 48_000),
        Ok(KernelRequest { cutoff_hz: 24_000, sample_rate: 48_000 })
    );
    assert_eq!(
        kernel_request(22_050, 44_100),
        Ok(KernelRequest { cutoff_hz: 22_050, sample_rate: 44_100 })
    );
}

#[test]
fn kernel_request_refuses_what_is_not_positive() {
    assert_eq!(kernel_request(0, 44_100), Err(FilterError::InvalidFilterParameters));
    assert_eq!(kernel_request(-5, 44_100), Err(FilterError::InvalidFilterParameters));
    assert_eq!(kernel_request(800, 0), Err(FilterError::InvalidFilterParameters));
}
