use comingle::archive_path::split_archive_parts;
use comingle::relative_path::uri_relative_to_base_dir;
use comingle::uri::AbsoluteUri;
use regex::Regex;

fn split_with_pattern(path: &str) -> Option<(String, String)> {
    let re = Regex::new(r"(.+\.(?:zip|3tz))[\\/]?(.*)$").unwrap();
    re.captures(path).and_then(|caps| {
        let archive_path = caps.get(1).unwrap().as_str().to_string();
        let internal_path = caps.get(2).map_or("".to_string(), |m| m.as_str().to_string());
        if internal_path.is_empty() && !archive_path.ends_with(".3tz") {
            None
        } else {
            let internal_path = if internal_path.is_empty() { "tileset.json".to_string() } else { internal_path };
            Some((archive_path, internal_path))
        }
    })
}

fn relative_by_segments(resolved: &str, base_str: &str) -> String {
    let base_dir = base_str.rfind('/').map(|i| &base_str[..=i]).unwrap_or(base_str);
    let base_segments: Vec<&str> = base_dir.split('/').collect();
    let resolved_segments: Vec<&str> = resolved.split('/').collect();
    let diverge_at = base_segments.iter().zip(resolved_segments.iter()).take_while(|(a, b)| a == b).count();
    resolved_segments[diverge_at..].join("/")
}

fn pseudo_random_strings(alphabet: &[&str], count: usize, max_len: usize) -> Vec<String> {
    let mut state: u64 = 0x2545_f491_4f6c_dd1d;
    let mut out = Vec::new();
    for _ in 0..count {
        state ^= state << 13;
        state ^= state >> 7;
        state ^= state << 17;
        let len = (state % (max_len as u64 + 1)) as usize;
        let mut s = String::new();
        for _ in 0..len {
            state ^= state << 13;
            state ^= state >> 7;
            state ^= state << 17;
            s.push_str(alphabet[(state % alphabet.len() as u64) as usize]);
        }
        out.push(s);
    }
    out
}

#[test]
fn split_agrees_with_the_path_pattern() {
    let alphabet = [".zip", ".3tz", "/", "\\", "a", ".", "z", "\n", "tileset.json", "3tz", "é"];
    let mut inputs = pseudo_random_strings(&alphabet, 3000, 8);
    inputs.extend(["", ".3tz", "a.3tz", "a.zip", "a.zip/", "a.3tz\\", "x.3tzabc", "\n.3tz", "b\na.zip/c"].iter().map(|s| s.to_string()));
    for p in inputs {
        assert_eq!(split_archive_parts(&p), split_with_pattern(&p), "input {:?}", p);
    }
}

#[test]
fn relative_path_agrees_with_segment_rewrite() {
    let alphabet = ["/", "a", "b", "x.json", "..", ""];
    let bases = pseudo_random_strings(&alphabet, 60, 6);
    let resolved = pseudo_random_strings(&alphabet, 60, 7);
    let mut checked = 0;
    for b in &bases {
        let base_text = format!("s3://{}", b);
        let base = match AbsoluteUri::new(&base_text) {
            Ok(u) => u,
            Err(_) => continue,
        };
        for r in &resolved {
            let full = format!("s3://{}", r);
            assert_eq!(uri_relative_to_base_dir(&full, &base), relative_by_segments(&full, &base_text));
            assert_eq!(uri_relative_to_base_dir(r, &base), relative_by_segments(r, &base_text));
            checked += 1;
        }
    }
    assert!(checked > 100);
}
