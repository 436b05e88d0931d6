use lib::metrics::{
    cgroup_value, cpu_usage, cpu_usec, cpuacct_usec, line_with_prefix, rss_bytes, stat_usec,
    CpuTracker, CpuUsage,
};
use lib::pricing::{parse_record, providers, record_line, PromoRule, Provider};
use lib::sysinfo::{
    cache_line, cpu_cores, cpu_model, cpu_speed, hostname, hypervisor, kernel, loadavg, mem_total,
    numa_nodes, os_name, simd_flags, sys_value, SysInfo,
};

fn lines(v: &[&str]) -> Vec<String> {
    v.iter().map(|s| s.to_string()).collect()
}

#[test]
fn cgroup_values() {
    assert_eq!(cgroup_value("536870912\n"), Some(536870912));
    assert_eq!(cgroup_value("max\n"), None);
    assert_eq!(cgroup_value(""), None);
    assert_eq!(cgroup_value("  42  "), Some(42));
}

#[test]
fn processor_time_from_cpu_stat() {
    assert_eq!(stat_usec("usage_usec 500\nuser_usec 3\n"), Some(500));
    assert_eq!(stat_usec("usage_usec x\nusage_usec 7\n"), Some(7));
    assert_eq!(stat_usec("usage_usec 1 2\nuser_usec 3\n"), None);
    assert_eq!(stat_usec(""), None);
    assert_eq!(cpuacct_usec("123456789\n"), Some(123456));
    assert_eq!(cpu_usec(Some("user_usec 1\n"), Some("5000\n")), Some(5));
    assert_eq!(cpu_usec(Some("usage_usec 9\n"), Some("5000\n")), Some(9));
    assert_eq!(cpu_usec(None, None), None);
    assert_eq!(cpu_usec(None, Some("nope")), None);
}

#[test]
fn resident_memory() {
    assert_eq!(rss_bytes(&lines(&["Name: x", "VmRSS:\t  1024 kB", "VmRSS: 1 kB"])), Some(1048576));
    assert_eq!(rss_bytes(&lines(&["VmRSS:", "VmRSS: 2 kB"])), Some(2048));
    assert_eq!(rss_bytes(&lines(&["VmHWM: 2 kB"])), None);
    assert_eq!(rss_bytes(&lines(&["VmRSS: 18446744073709551615 kB"])), Some(18446744073709551615u64.wrapping_mul(1024)));
}

#[test]
fn first_line_with_a_prefix() {
    let l = lines(&["NAME=x", "PRETTY_NAME=\"Ubuntu\"", "PRETTY_NAME=2"]);
    assert_eq!(line_with_prefix(&l, "PRETTY_NAME="), Some("PRETTY_NAME=\"Ubuntu\"".to_string()));
    assert_eq!(line_with_prefix(&l, "ID="), None);
}

#[test]
fn processor_use_between_samples() {
    assert_eq!(cpu_usage(300, 100, 50), Some(CpuUsage { cpu_usec: 200, wall_usec: 50 }));
    assert_eq!(cpu_usage(100, 300, 50), Some(CpuUsage { cpu_usec: 0, wall_usec: 50 }));
    assert_eq!(cpu_usage(300, 100, 0), None);
    let mut t = CpuTracker::new(100);
    assert_eq!(t.last_cpu_usec, 100);
    let start = std::time::Instant::now();
    while start.elapsed() < std::time::Duration::from_millis(2) {}
    let u = t.sample(400).expect("time passed");
    assert_eq!(u.cpu_usec, 300);
    assert!(u.wall_usec >= 1000);
    assert_eq!(t.last_cpu_usec, 400);
}

#[test]
fn host_fields() {
    assert_eq!(os_name(Some("PRETTY_NAME=\"Ubuntu 22.04.3 LTS\"")), "Ubuntu 22.04.3 LTS");
    assert_eq!(os_name(None), "Unknown OS");
    assert_eq!(kernel(Some("Linux version 5.15.0-91-generic (buildd@lcy02) #101\n")), "Linux version 5.15.0-91-generic");
    assert_eq!(kernel(Some("Linux")), "Linux");
    assert_eq!(kernel(None), "Unknown Kernel");
    assert_eq!(hostname(Some("box\n")), "box");
    assert_eq!(hostname(None), "Unknown Host");
    assert_eq!(hypervisor(Some("xen\n"), Some("QEMU\n")), "xen");
    assert_eq!(hypervisor(None, Some(" QEMU\n")), "QEMU");
    assert_eq!(hypervisor(None, None), "KVM/Hypervisor");
    assert_eq!(cpu_model(Some("model name\t: Intel(R) Xeon(R) CPU @ 2.20GHz")), "Intel(R) Xeon(R) CPU @ 2.20GHz");
    assert_eq!(cpu_model(Some("model name")), "");
    assert_eq!(cpu_model(Some("a:b:c")), "b");
    assert_eq!(cpu_model(None), "Unknown CPU");
    assert_eq!(cpu_speed(Some("cpu MHz\t\t: 2199.998")), "2199.998 MHz");
    assert_eq!(cpu_speed(None), "Unknown Speed");
    assert_eq!(cpu_cores(Some("processor\t: 0\nflags\nprocessor\t: 1\n")), 2);
    assert_eq!(cpu_cores(Some("")), 0);
    assert_eq!(cpu_cores(None), 1);
    assert_eq!(mem_total(Some("MemTotal:       16318412 kB")), "16318412 KB");
    assert_eq!(mem_total(Some("MemTotal:")), " KB");
    assert_eq!(mem_total(None), "Unknown Mem");
    assert_eq!(loadavg(Some("0.52 0.58 0.59 1/189 12345\n")), "0.52 0.58 0.59");
    assert_eq!(loadavg(None), "Unknown");
    assert_eq!(sys_value(Some("32K\n")), "32K");
    assert_eq!(sys_value(None), "N/A");
    assert_eq!(cache_line("64"), 64);
    assert_eq!(cache_line("128"), 128);
    assert_eq!(cache_line("N/A"), 64);
}

#[test]
fn reported_processor_features() {
    let info = "processor\t: 0\nflags\t\t: fpu sse sse2 ssse3 avx foo aes hypervisor\nflags : avx2\n";
    assert_eq!(simd_flags(Some(info)), "sse sse2 ssse3 avx aes hypervisor");
    assert_eq!(simd_flags(Some("flags\n")), "");
    assert_eq!(simd_flags(Some("processor: 0\n")), "");
    assert_eq!(simd_flags(None), "");
}

#[test]
fn numa_node_count() {
    assert_eq!(numa_nodes(&lines(&["node0", "node1", "possible", "has_cpu"])), 2);
    assert_eq!(numa_nodes(&lines(&["possible"])), 1);
    assert_eq!(numa_nodes(&Vec::new()), 1);
}

#[test]
fn host_description_as_json() {
    let s = SysInfo {
        os: "Ubuntu".to_string(),
        kernel: "Linux version 6".to_string(),
        hostname: "h".to_string(),
        hypervisor: "KVM".to_string(),
        cpu_model: "m".to_string(),
        cpu_speed: "1 MHz".to_string(),
        cpu_cores: 4,
        cpu_flags: "sse avx".to_string(),
        l1_data: "32K".to_string(),
        l1_inst: "32K".to_string(),
        l2: "1M".to_string(),
        l3: "N/A".to_string(),
        cache_line: 64,
        numa_nodes: 1,
        page_size: -1,
        mem_total: "10 KB".to_string(),
        uptime: "1h 2m".to_string(),
        loadavg: "0.1 0.2 0.3".to_string(),
    };
    let expected = "{\"os\":\"Ubuntu\",\"kernel\":\"Linux version 6\",\"hostname\":\"h\",\"hypervisor\":\"KVM\",\"cpu_model\":\"m\",\"cpu_speed\":\"1 MHz\",\"cpu_cores\":4,\"cpu_flags\":\"sse avx\",\"l1_data\":\"32K\",\"l1_inst\":\"32K\",\"l2\":\"1M\",\"l3\":\"N/A\",\"cache_line\":64,\"numa_nodes\":1,\"page_size\":-1,\"mem_total\":\"10 KB\",\"uptime\":\"1h 2m\",\"loadavg\":\"0.1 0.2 0.3\"}";
    assert_eq!(s.to_json(), expected);
}

#[test]
fn providers_and_their_rules() {
    let p = providers();
    assert_eq!(p, vec![Provider::Grab, Provider::Lineman, Provider::Robinhood, Provider::Shopee]);
    let keys: Vec<&str> = p.iter().map(|x| x.key()).collect();
    assert_eq!(keys, vec!["grab", "lineman", "robinhood", "shopee"]);
    let names: Vec<&str> = p.iter().map(|x| x.name()).collect();
    assert_eq!(names, vec!["GrabFood", "LINE MAN", "Robinhood", "ShopeeFood"]);
    assert_eq!(Provider::Grab.base_fee(), Some(10));
    assert_eq!(Provider::Lineman.base_fee(), None);
    assert_eq!(Provider::Robinhood.fee_per_km(), 4);
    assert!(Provider::Lineman.discounts_delivery_only());
    assert!(!Provider::Shopee.discounts_delivery_only());
    assert!(Provider::Shopee.offers("shopee"));
    assert!(!Provider::Shopee.offers("grab"));
    assert_eq!(Provider::Grab.promo_rule("GRAB60"), PromoRule::Fixed { amount: 60, min_basket: Some(200) });
    assert_eq!(Provider::Lineman.promo_rule("LINEMANDEL"), PromoRule::Fixed { amount: 30, min_basket: None });
    assert_eq!(Provider::Robinhood.promo_rule("RBH40"), PromoRule::Fixed { amount: 40, min_basket: Some(180) });
    assert_eq!(Provider::Shopee.promo_rule("SHOPEE50"), PromoRule::Fixed { amount: 50, min_basket: Some(220) });
    assert_eq!(Provider::Grab.promo_rule("RBH40"), PromoRule::Listed);
}

#[test]
fn stored_promo_lines() {
    let line = record_line("GRAB60", "grab", "60");
    assert_eq!(line, "GRAB60;grab;60\n");
    let r = parse_record(line.trim_end_matches('\n')).expect("three fields");
    assert_eq!((r.code.as_str(), r.service.as_str(), r.discount.as_str()), ("GRAB60", "grab", "60"));
    assert!(parse_record("A;b").is_none());
    assert!(parse_record("A;b;c;d").is_none());
    let e = parse_record(";;").expect("three empty fields");
    assert_eq!(e.code, "");
}
