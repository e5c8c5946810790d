//! The web portal's HTML pages: the fixed layout, styles and scripts around
//! the values of the gateway's state.
use vstd::prelude::*;
use crate::bytes::IpEndpoint;
use crate::config::{ConfigView, GatewayConfig};
use crate::mstp_driver::MstpStats;
use crate::text::{decimal, push_decimal, push_str, string_from_chars};
use crate::web::{
    dotted, generate_device_grid_html, get_state_name, grid_cells, hex32, masters_hex, push_dotted,
    state_label, uptime_spec, uptime_text, GatewayStats, WebState,
};

verus! {

/// The portal's style sheet.
pub const CSS_STYLES: &'static str = r#"
* { box-sizing: border-box; margin: 0; padding: 0; }
body { font-family: 'SF Mono', 'Fira Code', 'Consolas', monospace; background: #0a0a0a; color: #e0e0e0; line-height: 1.6; }
.container { max-width: 800px; margin: 0 auto; padding: 24px; }
h1 { color: #fff; text-align: center; margin-bottom: 24px; font-size: 1.5em; font-weight: 600; letter-spacing: 2px; text-transform: uppercase; }
h2 { color: #fff; margin-bottom: 10px; font-size: 0.8em; font-weight: 500; letter-spacing: 1px; text-transform: uppercase; border-bottom: 1px solid #2a2a2a; padding-bottom: 6px; }
nav { display: flex; justify-content: center; gap: 4px; margin-bottom: 24px; }
nav a { color: #666; text-decoration: none; padding: 10px 24px; font-size: 0.85em; letter-spacing: 1px; text-transform: uppercase; border: 1px solid #222; transition: all 0.2s; }
nav a:hover { color: #fff; border-color: #444; }
nav a.active { color: #fff; background: #1a1a1a; border-color: #333; }
.card { background: #111; border: 1px solid #222; padding: 16px; margin-bottom: 12px; }
.card-header { display: flex; justify-content: space-between; align-items: center; margin-bottom: 10px; border-bottom: 1px solid #2a2a2a; padding-bottom: 6px; }
.card-header h2 { margin-bottom: 0; border-bottom: none; padding-bottom: 0; }
.status-grid { display: grid; grid-template-columns: repeat(auto-fit, minmax(120px, 1fr)); gap: 6px; }
.status-item { background: #0a0a0a; border: 1px solid #1a1a1a; padding: 8px 10px; text-align: center; }
.status-item .label { display: block; color: #555; font-size: 0.65em; letter-spacing: 1px; text-transform: uppercase; margin-bottom: 2px; }
.status-item .value { display: block; font-size: 1.1em; font-weight: 600; color: #fff; font-variant-numeric: tabular-nums; overflow: hidden; text-overflow: ellipsis; white-space: nowrap; }
.status-item .value.auto-size { font-size: clamp(0.7em, 2.5vw, 1.1em); }
.chip { display: inline-block; background: #333; color: #fff; padding: 2px 8px; font-size: 0.7em; font-weight: 400; margin-left: 8px; vertical-align: middle; }
.status-item .value.ok { color: #888; }
.status-item .value.error { color: #fff; background: #333; padding: 2px 8px; }
.status-item .value.warning { color: #000; background: #fff; padding: 2px 8px; animation: blink 1s infinite; }
@keyframes blink { 50% { opacity: 0.5; } }
.device-grid { display: grid; grid-template-columns: repeat(16, 1fr); gap: 2px; margin-bottom: 12px; }
.grid-cell { aspect-ratio: 1; background: #1a1a1a; border: 1px solid #222; display: flex; align-items: center; justify-content: center; font-size: 0.55em; color: #333; transition: all 0.2s; cursor: default; }
.grid-cell.active { background: #333; color: #fff; border-color: #444; }
.grid-cell.self { background: #fff; color: #000; border-color: #fff; font-weight: bold; }
.grid-legend { display: flex; gap: 16px; justify-content: center; font-size: 0.75em; color: #666; }
.legend-box { display: inline-block; width: 12px; height: 12px; border: 1px solid #333; margin-right: 4px; vertical-align: middle; }
.legend-box.active { background: #333; }
.legend-box.self { background: #fff; }
.form-group { margin-bottom: 16px; }
.form-group label { display: block; margin-bottom: 6px; color: #666; font-size: 0.75em; letter-spacing: 1px; text-transform: uppercase; }
.hint { color: #555; font-size: 0.8em; margin: -8px 0 12px 0; font-style: italic; }
.form-group input, .form-group select { width: 100%; padding: 12px; border: 1px solid #222; background: #0a0a0a; color: #fff; font-size: 0.95em; font-family: inherit; transition: border-color 0.2s; }
.form-group input:focus, .form-group select:focus { outline: none; border-color: #444; }
.form-group input::placeholder { color: #444; }
.button-row { display: flex; gap: 6px; flex-wrap: wrap; margin-top: 12px; }
.btn { padding: 8px 16px; border: 1px solid #333; background: transparent; color: #fff; cursor: pointer; font-size: 0.75em; font-family: inherit; letter-spacing: 1px; text-transform: uppercase; transition: all 0.2s; }
.btn:hover { background: #1a1a1a; border-color: #444; }
.btn-sm { padding: 4px 10px; font-size: 0.65em; }
.btn-primary { background: #fff; color: #000; border-color: #fff; }
.btn-primary:hover { background: #ccc; border-color: #ccc; }
.btn-success { background: #333; border-color: #444; }
.btn-success:hover { background: #444; }
.btn-warning { background: #222; border-color: #333; }
.btn-warning:hover { background: #333; }
.btn-danger { background: #1a1a1a; border-color: #333; color: #888; }
.btn-danger:hover { background: #2a2a2a; color: #fff; }
.message { background: #111; border-left: 2px solid #444; padding: 16px; margin-bottom: 20px; font-size: 0.9em; }
.footer { text-align: center; color: #333; margin-top: 32px; font-size: 0.75em; letter-spacing: 1px; }
.footer a { color: #555; text-decoration: none; }
.footer a:hover { color: #888; }
.modal { display: none; position: fixed; top: 0; left: 0; width: 100%; height: 100%; background: rgba(0,0,0,0.8); justify-content: center; align-items: center; z-index: 1000; }
.modal-content { background: #111; border: 1px solid #333; padding: 24px; max-width: 400px; width: 90%; }
.modal-content h3 { margin-bottom: 16px; font-size: 1em; letter-spacing: 1px; text-transform: uppercase; border-bottom: 1px solid #222; padding-bottom: 8px; }
.modal-content p { margin: 8px 0; font-size: 0.9em; }
.modal-content p b { color: #888; }
.device-row { display: flex; justify-content: space-between; padding: 12px; margin: 4px 0; background: #0a0a0a; border: 1px solid #1a1a1a; cursor: pointer; font-size: 0.85em; transition: all 0.2s; }
.device-row:hover { background: #1a1a1a; border-color: #333; }
.device-row span { color: #888; }
.scan-status { color: #666; font-size: 0.85em; margin-bottom: 8px; }
.grid-cell.active { cursor: pointer; }
.grid-cell.active:hover { background: #444; transform: scale(1.1); }
@media (max-width: 600px) { .container { padding: 16px; } .card { padding: 16px; } .btn { padding: 10px 16px; } .device-grid { grid-template-columns: repeat(8, 1fr); } .grid-cell { font-size: 0.5em; } }
"#;

/// A page that sends the browser on to the status page.
pub const HTML_REDIRECT_STATUS: &'static str = r#"<!DOCTYPE html>
<html><head><meta http-equiv="refresh" content="0;url=/status"></head>
<body>Redirecting to <a href="/status">status page</a>...</body></html>"#;

/// The page shown while the gateway restarts.
pub const HTML_REBOOT_PAGE: &'static str = r#"<!DOCTYPE html>
<html>
<head>
    <title>BACman Gateway - Rebooting</title>
    <meta name="viewport" content="width=device-width, initial-scale=1">
    <style>
        body { font-family: 'SF Mono', 'Fira Code', 'Consolas', monospace; background: #0a0a0a; color: #e0e0e0; display: flex; justify-content: center; align-items: center; min-height: 100vh; }
        .message { text-align: center; }
        h1 { color: #fff; font-size: 1.2em; font-weight: 500; letter-spacing: 2px; text-transform: uppercase; }
        .spinner { width: 40px; height: 40px; border: 2px solid #222; border-top: 2px solid #fff; border-radius: 50%; animation: spin 1s linear infinite; margin: 24px auto; }
        @keyframes spin { 0% { transform: rotate(0deg); } 100% { transform: rotate(360deg); } }
        p { color: #555; font-size: 0.85em; letter-spacing: 1px; }
    </style>
    <script>setTimeout(() => location.href = '/status', 10000);</script>
</head>
<body>
    <div class="message">
        <h1>Rebooting</h1>
        <div class="spinner"></div>
        <p>The gateway is restarting. You will be redirected automatically.</p>
    </div>
</body>
</html>"#;

/// Layout of the status page, part 0.
pub const STATUS_PAGE_0: &'static str = r#"<!DOCTYPE html>
<html>
<head>
    <title>BACman Gateway - Status</title>
    <meta name="viewport" content="width=device-width, initial-scale=1">
    <style>"#;

/// Layout of the status page, part 1.
pub const STATUS_PAGE_1: &'static str = r#"</style>
    <script>
        const STATE_NAMES = ['Init', 'Idle', 'UseToken', 'WaitReply', 'PassToken', 'NoToken', 'PollMaster', 'AnswerReq', 'DoneToken'];

        function updateDeviceGrid(hexStr, stationAddr) {
            const grid = document.getElementById('device-grid');
            if (!grid) return;

            // Parse hex string to BigInt
            let bitmap = BigInt('0x' + hexStr);

            for (let i = 0; i < 128; i++) {
                const cell = document.getElementById('dev-' + i);
                if (cell) {
                    const isPresent = (bitmap >> BigInt(i)) & BigInt(1);
                    cell.className = 'grid-cell';
                    if (i === stationAddr) {
                        cell.className += ' self';
                    } else if (isPresent) {
                        cell.className += ' active';
                    }
                }
            }
        }

        function updateStatus() {
            fetch('/api/status')
                .then(r => r.json())
                .then(data => {
                    // Frame counters
                    document.getElementById('rx_frames').textContent = data.rx_frames;
                    document.getElementById('tx_frames').textContent = data.tx_frames;
                    document.getElementById('tokens_received').textContent = data.tokens_received;

                    // Error counters with highlighting
                    const crcEl = document.getElementById('crc_errors');
                    crcEl.textContent = data.crc_errors;
                    crcEl.className = data.crc_errors > 0 ? 'value error' : 'value';

                    const frameErrEl = document.getElementById('frame_errors');
                    frameErrEl.textContent = data.frame_errors;
                    frameErrEl.className = data.frame_errors > 0 ? 'value error' : 'value';

                    const replyTOEl = document.getElementById('reply_timeouts');
                    replyTOEl.textContent = data.reply_timeouts;
                    replyTOEl.className = data.reply_timeouts > 0 ? 'value error' : 'value';

                    const passFailEl = document.getElementById('token_pass_failures');
                    passFailEl.textContent = data.token_pass_failures;
                    passFailEl.className = data.token_pass_failures > 0 ? 'value error' : 'value';

                    // Token loop timing
                    document.getElementById('token_loop').textContent = data.token_loop_ms + ' ms';
                    document.getElementById('token_loop_min').textContent = data.token_loop_min_ms + ' ms';
                    document.getElementById('token_loop_max').textContent = data.token_loop_max_ms + ' ms';
                    document.getElementById('token_loop_avg').textContent = data.token_loop_avg_ms + ' ms';

                    // State machine
                    document.getElementById('masters').textContent = data.master_count;
                    document.getElementById('state').textContent = STATE_NAMES[data.current_state] || 'Unknown';
                    document.getElementById('next_station').textContent = data.next_station;
                    document.getElementById('poll_station').textContent = data.poll_station;

                    const silenceEl = document.getElementById('silence');
                    silenceEl.textContent = data.silence_ms + ' ms';
                    silenceEl.className = data.silence_ms > 500 ? 'value warning' : 'value';

                    const soleMasterEl = document.getElementById('sole_master');
                    soleMasterEl.textContent = data.sole_master ? 'Yes' : 'No';
                    soleMasterEl.className = data.sole_master ? 'value warning' : 'value';

                    // Queue depths
                    document.getElementById('send_queue').textContent = data.send_queue_len;
                    document.getElementById('receive_queue').textContent = data.receive_queue_len;

                    // Gateway stats
                    document.getElementById('mstp_to_ip').textContent = data.mstp_to_ip;
                    document.getElementById('ip_to_mstp').textContent = data.ip_to_mstp;

                    // Uptime
                    document.getElementById('uptime').textContent = data.uptime;

                    // Device count chip
                    document.getElementById('device-count').textContent = data.master_count + ' found';

                    updateDeviceGrid(data.discovered_masters, data.station_address);
                })
                .catch(e => console.error('Update failed:', e));
        }
        function resetStats() {
            fetch('/api/reset-stats', { method: 'POST' })
                .then(r => r.json())
                .then(data => { if(data.status === 'ok') updateStatus(); })
                .catch(e => console.error('Reset failed:', e));
        }
        function exportData() {
            window.location.href = '/api/export';
        }
        let scanPollInterval = null;
        function startScan() {
            document.getElementById('scanBtn').disabled = true;
            document.getElementById('scanBtn').textContent = 'Scanning...';
            document.getElementById('scan-results').style.display = 'block';
            document.getElementById('scan-status').textContent = 'Sending Who-Is broadcast...';
            document.getElementById('device-list').innerHTML = '';

            fetch('/api/scan', { method: 'POST' })
                .then(r => r.json())
                .then(data => {
                    if (data.status === 'ok') {
                        scanPollInterval = setInterval(pollScanResults, 1000);
                        setTimeout(stopScan, 5000);
                    } else {
                        document.getElementById('scan-status').textContent = data.message;
                        document.getElementById('scanBtn').disabled = false;
                        document.getElementById('scanBtn').textContent = 'Scan Devices (Who-Is)';
                    }
                });
        }
        function pollScanResults() {
            fetch('/api/devices')
                .then(r => r.json())
                .then(data => {
                    const list = document.getElementById('device-list');
                    list.innerHTML = '';
                    if (data.devices.length === 0) {
                        document.getElementById('scan-status').textContent = 'Waiting for I-Am responses...';
                    } else {
                        document.getElementById('scan-status').textContent = 'Found ' + data.devices.length + ' device(s):';
                        data.devices.forEach(dev => {
                            const div = document.createElement('div');
                            div.className = 'device-row';
                            div.innerHTML = '<span>MAC ' + dev.mac + '</span><span>Instance ' + dev.instance + '</span><span>Vendor ' + dev.vendor + '</span>';
                            div.onclick = () => showDeviceInfo(dev);
                            list.appendChild(div);
                        });
                    }
                });
        }
        function stopScan() {
            if (scanPollInterval) clearInterval(scanPollInterval);
            scanPollInterval = null;
            document.getElementById('scanBtn').disabled = false;
            document.getElementById('scanBtn').textContent = 'Scan Devices (Who-Is)';
            fetch('/api/stop-scan', { method: 'POST' });
            pollScanResults();
        }
        function showDeviceInfo(dev) {
            const modal = document.getElementById('device-modal');
            const body = document.getElementById('modal-body');
            body.innerHTML = '<p><b>MAC Address:</b> ' + dev.mac + '</p>' +
                '<p><b>Device Instance:</b> ' + dev.instance + '</p>' +
                '<p><b>Vendor ID:</b> ' + dev.vendor + '</p>' +
                '<p><b>Max APDU:</b> ' + dev.max_apdu + '</p>' +
                '<p><b>Segmentation:</b> ' + ['Both', 'Transmit', 'Receive', 'None'][dev.segmentation] + '</p>';
            modal.style.display = 'flex';
        }
        function closeModal(e) {
            if (!e || e.target.id === 'device-modal') {
                document.getElementById('device-modal').style.display = 'none';
            }
        }
        function showGridDeviceInfo(mac) {
            fetch('/api/devices')
                .then(r => r.json())
                .then(data => {
                    const dev = data.devices.find(d => d.mac === mac);
                    if (dev) {
                        showDeviceInfo(dev);
                    } else {
                        const modal = document.getElementById('device-modal');
                        const body = document.getElementById('modal-body');
                        body.innerHTML = '<p><b>MAC Address:</b> ' + mac + '</p><p>No I-Am received. Run a scan first.</p>';
                        modal.style.display = 'flex';
                    }
                });
        }
        setInterval(updateStatus, 2000);
        document.addEventListener('DOMContentLoaded', () => updateDeviceGrid('"#;

/// Layout of the status page, part 2.
pub const STATUS_PAGE_2: &'static str = r#"', "#;

/// Layout of the status page, part 3.
pub const STATUS_PAGE_3: &'static str = r#"));
    </script>
</head>
<body>
    <div class="container">
        <h1>BACman Gateway</h1>
        <nav>
            <a href="/status" class="active">Status</a>
            <a href="/config">Configuration</a>
        </nav>

        <div class="card">
            <div class="card-header">
                <h2>MS/TP Device Map <span class="chip" id="device-count">"#;

/// Layout of the status page, part 4.
pub const STATUS_PAGE_4: &'static str = r#" found</span></h2>
                <button class="btn btn-sm" id="scanBtn" onclick="startScan()">Scan (Who-Is)</button>
            </div>
            <div class="device-grid" id="device-grid">"#;

/// Layout of the status page, part 5.
pub const STATUS_PAGE_5: &'static str = r#"</div>
            <div class="grid-legend">
                <span><span class="legend-box self"></span> This Device</span>
                <span><span class="legend-box active"></span> Active Master</span>
                <span><span class="legend-box"></span> Not Found</span>
            </div>
            <div id="scan-results" style="margin-top:12px;display:none;">
                <div class="scan-status" id="scan-status"></div>
                <div id="device-list"></div>
            </div>
        </div>

        <div class="card">
            <h2>State Machine</h2>
            <div class="status-grid">
                <div class="status-item">
                    <span class="label">State</span>
                    <span class="value" id="state">"#;

/// Layout of the status page, part 6.
pub const STATUS_PAGE_6: &'static str = r#"</span>
                </div>
                <div class="status-item">
                    <span class="label">Sole Master</span>
                    <span class="value "#;

/// Layout of the status page, part 7.
pub const STATUS_PAGE_7: &'static str = r#"" id="sole_master">"#;

/// Layout of the status page, part 8.
pub const STATUS_PAGE_8: &'static str = r#"</span>
                </div>
                <div class="status-item">
                    <span class="label">Next Station</span>
                    <span class="value" id="next_station">"#;

/// Layout of the status page, part 9.
pub const STATUS_PAGE_9: &'static str = r#"</span>
                </div>
                <div class="status-item">
                    <span class="label">Poll Station</span>
                    <span class="value" id="poll_station">"#;

/// Layout of the status page, part 10.
pub const STATUS_PAGE_10: &'static str = r#"</span>
                </div>
                <div class="status-item">
                    <span class="label">Silence</span>
                    <span class="value" id="silence">"#;

/// Layout of the status page, part 11.
pub const STATUS_PAGE_11: &'static str = r#" ms</span>
                </div>
                <div class="status-item">
                    <span class="label">Masters Found</span>
                    <span class="value" id="masters">"#;

/// Layout of the status page, part 12.
pub const STATUS_PAGE_12: &'static str = r#"</span>
                </div>
            </div>
        </div>

        <div class="card">
            <h2>MS/TP Statistics</h2>
            <div class="status-grid">
                <div class="status-item">
                    <span class="label">RX Frames</span>
                    <span class="value" id="rx_frames">"#;

/// Layout of the status page, part 13.
pub const STATUS_PAGE_13: &'static str = r#"</span>
                </div>
                <div class="status-item">
                    <span class="label">TX Frames</span>
                    <span class="value" id="tx_frames">"#;

/// Layout of the status page, part 14.
pub const STATUS_PAGE_14: &'static str = r#"</span>
                </div>
                <div class="status-item">
                    <span class="label">Tokens Received</span>
                    <span class="value" id="tokens_received">"#;

/// Layout of the status page, part 15.
pub const STATUS_PAGE_15: &'static str = r#"</span>
                </div>
                <div class="status-item">
                    <span class="label">Send Queue</span>
                    <span class="value" id="send_queue">"#;

/// Layout of the status page, part 16.
pub const STATUS_PAGE_16: &'static str = r#"</span>
                </div>
                <div class="status-item">
                    <span class="label">Receive Queue</span>
                    <span class="value" id="receive_queue">"#;

/// Layout of the status page, part 17.
pub const STATUS_PAGE_17: &'static str = r#"</span>
                </div>
            </div>
        </div>

        <div class="card">
            <h2>Token Loop Timing</h2>
            <div class="status-grid">
                <div class="status-item">
                    <span class="label">Current</span>
                    <span class="value" id="token_loop">"#;

/// Layout of the status page, part 18.
pub const STATUS_PAGE_18: &'static str = r#" ms</span>
                </div>
                <div class="status-item">
                    <span class="label">Min</span>
                    <span class="value" id="token_loop_min">"#;

/// Layout of the status page, part 19.
pub const STATUS_PAGE_19: &'static str = r#" ms</span>
                </div>
                <div class="status-item">
                    <span class="label">Max</span>
                    <span class="value" id="token_loop_max">"#;

/// Layout of the status page, part 20.
pub const STATUS_PAGE_20: &'static str = r#" ms</span>
                </div>
                <div class="status-item">
                    <span class="label">Average</span>
                    <span class="value" id="token_loop_avg">"#;

/// Layout of the status page, part 21.
pub const STATUS_PAGE_21: &'static str = r#" ms</span>
                </div>
            </div>
        </div>

        <div class="card">
            <h2>Errors</h2>
            <div class="status-grid">
                <div class="status-item">
                    <span class="label">CRC Errors</span>
                    <span class="value "#;

/// Layout of the status page, part 22.
pub const STATUS_PAGE_22: &'static str = r#"" id="crc_errors">"#;

/// Layout of the status page, part 23.
pub const STATUS_PAGE_23: &'static str = r#"</span>
                </div>
                <div class="status-item">
                    <span class="label">Frame Errors</span>
                    <span class="value "#;

/// Layout of the status page, part 24.
pub const STATUS_PAGE_24: &'static str = r#"" id="frame_errors">"#;

/// Layout of the status page, part 25.
pub const STATUS_PAGE_25: &'static str = r#"</span>
                </div>
                <div class="status-item">
                    <span class="label">Reply Timeouts</span>
                    <span class="value "#;

/// Layout of the status page, part 26.
pub const STATUS_PAGE_26: &'static str = r#"" id="reply_timeouts">"#;

/// Layout of the status page, part 27.
pub const STATUS_PAGE_27: &'static str = r#"</span>
                </div>
                <div class="status-item">
                    <span class="label">Token Pass Fail</span>
                    <span class="value "#;

/// Layout of the status page, part 28.
pub const STATUS_PAGE_28: &'static str = r#"" id="token_pass_failures">"#;

/// Layout of the status page, part 29.
pub const STATUS_PAGE_29: &'static str = r#"</span>
                </div>
            </div>
        </div>

        <div class="card">
            <h2>Gateway Routing</h2>
            <div class="status-grid">
                <div class="status-item">
                    <span class="label">WiFi</span>
                    <span class="value "#;

/// Layout of the status page, part 30.
pub const STATUS_PAGE_30: &'static str = r#"">"#;

/// Layout of the status page, part 31.
pub const STATUS_PAGE_31: &'static str = r#"</span>
                </div>
                <div class="status-item">
                    <span class="label">IP Address</span>
                    <span class="value auto-size">"#;

/// Layout of the status page, part 32.
pub const STATUS_PAGE_32: &'static str = r#"</span>
                </div>
                <div class="status-item">
                    <span class="label">MS/TP to IP</span>
                    <span class="value" id="mstp_to_ip">"#;

/// Layout of the status page, part 33.
pub const STATUS_PAGE_33: &'static str = r#"</span>
                </div>
                <div class="status-item">
                    <span class="label">IP to MS/TP</span>
                    <span class="value" id="ip_to_mstp">"#;

/// Layout of the status page, part 34.
pub const STATUS_PAGE_34: &'static str = r#"</span>
                </div>
                <div class="status-item">
                    <span class="label">Uptime</span>
                    <span class="value" id="uptime">"#;

/// Layout of the status page, part 35.
pub const STATUS_PAGE_35: &'static str = r#"</span>
                </div>
            </div>
        </div>

        <div class="card">
            <h2>Network Configuration</h2>
            <div class="status-grid">
                <div class="status-item">
                    <span class="label">MS/TP Network</span>
                    <span class="value">"#;

/// Layout of the status page, part 36.
pub const STATUS_PAGE_36: &'static str = r#"</span>
                </div>
                <div class="status-item">
                    <span class="label">IP Network</span>
                    <span class="value">"#;

/// Layout of the status page, part 37.
pub const STATUS_PAGE_37: &'static str = r#"</span>
                </div>
                <div class="status-item">
                    <span class="label">Station Address</span>
                    <span class="value">"#;

/// Layout of the status page, part 38.
pub const STATUS_PAGE_38: &'static str = r#"</span>
                </div>
                <div class="status-item">
                    <span class="label">Device Instance</span>
                    <span class="value">"#;

/// Layout of the status page, part 39.
pub const STATUS_PAGE_39: &'static str = r#"</span>
                </div>
            </div>
        </div>

        <div class="card">
            <h2>Tools</h2>
            <div class="button-row">
                <button class="btn" onclick="resetStats()">Reset Statistics</button>
                <button class="btn" onclick="exportData()">Export JSON</button>
            </div>
        </div>

        <div id="device-modal" class="modal" onclick="closeModal(event)">
            <div class="modal-content" onclick="event.stopPropagation()">
                <h3>Device Info</h3>
                <div id="modal-body"></div>
                <button class="btn" onclick="closeModal()">Close</button>
            </div>
        </div>

        <p class="footer">BACman v0.1.0</p>
    </div>
</body>
</html>"#;

/// Layout of the configuration page, part 0.
pub const CONFIG_PAGE_0: &'static str = r#"<!DOCTYPE html>
<html>
<head>
    <title>BACman Gateway - Configuration</title>
    <meta name="viewport" content="width=device-width, initial-scale=1">
    <style>"#;

/// Layout of the configuration page, part 1.
pub const CONFIG_PAGE_1: &'static str = r#"</style>
</head>
<body>
    <div class="container">
        <h1>BACman Gateway</h1>
        <nav>
            <a href="/status">Status</a>
            <a href="/config" class="active">Configuration</a>
        </nav>

        "#;

/// Layout of the configuration page, part 2.
pub const CONFIG_PAGE_2: &'static str = r#"

        <form method="POST" action="/config">
            <div class="card">
                <h2>WiFi Station Mode</h2>
                <p class="hint">Connect to an existing WiFi network</p>
                <div class="form-group">
                    <label for="wifi_ssid">SSID</label>
                    <input type="text" id="wifi_ssid" name="wifi_ssid" value=""#;

/// Layout of the configuration page, part 3.
pub const CONFIG_PAGE_3: &'static str = r#"" maxlength="32">
                </div>
                <div class="form-group">
                    <label for="wifi_pass">Password</label>
                    <input type="password" id="wifi_pass" name="wifi_pass" placeholder="(leave blank to keep current)" maxlength="64">
                </div>
            </div>

            <div class="card">
                <h2>WiFi Access Point Mode</h2>
                <p class="hint">Create a WiFi hotspot (activate via long-press on APConfig screen)</p>
                <div class="form-group">
                    <label for="ap_ssid">AP SSID</label>
                    <input type="text" id="ap_ssid" name="ap_ssid" value=""#;

/// Layout of the configuration page, part 4.
pub const CONFIG_PAGE_4: &'static str = r#"" maxlength="32">
                </div>
                <div class="form-group">
                    <label for="ap_pass">AP Password (min 8 chars)</label>
                    <input type="password" id="ap_pass" name="ap_pass" placeholder="(leave blank to keep current)" maxlength="64" minlength="8">
                </div>
            </div>

            <div class="card">
                <h2>MS/TP Settings</h2>
                <div class="form-group">
                    <label for="mstp_addr">Station Address (0-127)</label>
                    <input type="number" id="mstp_addr" name="mstp_addr" value=""#;

/// Layout of the configuration page, part 5.
pub const CONFIG_PAGE_5: &'static str = r#"" min="0" max="127">
                </div>
                <div class="form-group">
                    <label for="mstp_max">Max Master (0-127)</label>
                    <input type="number" id="mstp_max" name="mstp_max" value=""#;

/// Layout of the configuration page, part 6.
pub const CONFIG_PAGE_6: &'static str = r#"" min="0" max="127">
                </div>
                <div class="form-group">
                    <label for="mstp_baud">Baud Rate</label>
                    <select id="mstp_baud" name="mstp_baud">
                        <option value="9600" "#;

/// Layout of the configuration page, part 7.
pub const CONFIG_PAGE_7: &'static str = r#">9600</option>
                        <option value="19200" "#;

/// Layout of the configuration page, part 8.
pub const CONFIG_PAGE_8: &'static str = r#">19200</option>
                        <option value="38400" "#;

/// Layout of the configuration page, part 9.
pub const CONFIG_PAGE_9: &'static str = r#">38400</option>
                        <option value="57600" "#;

/// Layout of the configuration page, part 10.
pub const CONFIG_PAGE_10: &'static str = r#">57600</option>
                        <option value="76800" "#;

/// Layout of the configuration page, part 11.
pub const CONFIG_PAGE_11: &'static str = r#">76800</option>
                        <option value="115200" "#;

/// Layout of the configuration page, part 12.
pub const CONFIG_PAGE_12: &'static str = r#">115200</option>
                    </select>
                </div>
                <div class="form-group">
                    <label for="mstp_net">MS/TP Network Number</label>
                    <input type="number" id="mstp_net" name="mstp_net" value=""#;

/// Layout of the configuration page, part 13.
pub const CONFIG_PAGE_13: &'static str = r#"" min="1" max="65534">
                </div>
            </div>

            <div class="card">
                <h2>BACnet/IP Settings</h2>
                <div class="form-group">
                    <label for="ip_port">UDP Port</label>
                    <input type="number" id="ip_port" name="ip_port" value=""#;

/// Layout of the configuration page, part 14.
pub const CONFIG_PAGE_14: &'static str = r#"" min="1" max="65535">
                </div>
                <div class="form-group">
                    <label for="ip_net">IP Network Number</label>
                    <input type="number" id="ip_net" name="ip_net" value=""#;

/// Layout of the configuration page, part 15.
pub const CONFIG_PAGE_15: &'static str = r#"" min="1" max="65534">
                </div>
            </div>

            <div class="card">
                <h2>Device Settings</h2>
                <div class="form-group">
                    <label for="dev_inst">Device Instance (0-4194303)</label>
                    <input type="number" id="dev_inst" name="dev_inst" value=""#;

/// Layout of the configuration page, part 16.
pub const CONFIG_PAGE_16: &'static str = r#"" min="0" max="4194303">
                </div>
                <div class="form-group">
                    <label for="dev_name">Device Name</label>
                    <input type="text" id="dev_name" name="dev_name" value=""#;

/// Layout of the configuration page, part 17.
pub const CONFIG_PAGE_17: &'static str = r#"" maxlength="64">
                </div>
            </div>

            <div class="button-row">
                <button type="submit" class="btn btn-primary">Apply Changes</button>
            </div>
        </form>

        <div class="card">
            <h2>Persist Settings</h2>
            <p>Save configuration to flash memory (NVS) for persistence across reboots.</p>
            <div class="button-row">
                <form method="POST" action="/save" style="display:inline">
                    <button type="submit" class="btn btn-success">Save to NVS</button>
                </form>
                <form method="POST" action="/reset" style="display:inline" onsubmit="return confirm('Reset all settings to defaults?')">
                    <button type="submit" class="btn btn-warning">Reset Defaults</button>
                </form>
                <form method="POST" action="/reboot" style="display:inline" onsubmit="return confirm('Reboot the gateway?')">
                    <button type="submit" class="btn btn-danger">Reboot</button>
                </form>
            </div>
        </div>

        <p class="footer">BACman v0.1.0 | Changes take effect after reboot</p>
    </div>
</body>
</html>"#;

/// Layout of the BDT page, part 0.
pub const BDT_PAGE_0: &'static str = r#"<!DOCTYPE html>
<html>
<head>
    <title>BACman Gateway - BDT Configuration</title>
    <meta name="viewport" content="width=device-width, initial-scale=1">
    <style>"#;

/// Layout of the BDT page, part 1.
pub const BDT_PAGE_1: &'static str = r#"</style>
    <style>
        .bdt-entry { display: flex; align-items: center; gap: 16px; padding: 12px; background: #111; border: 1px solid #222; margin-bottom: 8px; }
        .bdt-entry .addr { color: #fff; font-weight: 500; min-width: 180px; }
        .bdt-entry .mask { color: #666; flex: 1; }
        .btn-small { padding: 4px 12px; font-size: 0.7em; }
        .btn-danger { border-color: #633; }
        .btn-danger:hover { background: #633; border-color: #844; }
        .add-form { background: #111; border: 1px solid #222; padding: 16px; margin-top: 16px; }
        .add-form h3 { margin-bottom: 16px; font-size: 0.9em; }
        .form-row { display: flex; gap: 12px; align-items: end; flex-wrap: wrap; }
        .form-row .form-group { margin-bottom: 0; }
        .form-group.small { max-width: 100px; }
    </style>
</head>
<body>
    <div class="container">
        <h1>BACman Gateway</h1>
        <nav>
            <a href="/status">Status</a>
            <a href="/config">Config</a>
            <a href="/bdt" class="active">BDT</a>
        </nav>

        "#;

/// Layout of the BDT page, part 2.
pub const BDT_PAGE_2: &'static str = r#"

        <div class="card">
            <h2>Broadcast Distribution Table</h2>
            <p style="color: #555; font-size: 0.8em; margin-bottom: 16px;">
                BDT entries define peer BBMDs for broadcast distribution across subnets.
            </p>
            "#;

/// Layout of the BDT page, part 3.
pub const BDT_PAGE_3: &'static str = r#"
        </div>

        <div class="add-form">
            <h3>Add BDT Entry</h3>
            <form method="POST" action="/bdt/add">
                <div class="form-row">
                    <div class="form-group">
                        <label>IP Address</label>
                        <input type="text" name="ip" placeholder="192.168.1.100" required>
                    </div>
                    <div class="form-group small">
                        <label>Port</label>
                        <input type="number" name="port" value="47808" min="1" max="65535">
                    </div>
                    <div class="form-group">
                        <label>Subnet Mask</label>
                        <input type="text" name="mask" placeholder="255.255.255.255">
                    </div>
                    <button type="submit" class="btn">Add Entry</button>
                </div>
            </form>
        </div>

        <div style="margin-top: 16px; display: flex; gap: 8px;">
            <form method="POST" action="/bdt/clear" onsubmit="return confirm('Clear all BDT entries?')">
                <button type="submit" class="btn btn-danger">Clear All Entries</button>
            </form>
        </div>
    </div>
</body>
</html>"#;

/// Layout of one BDT entry, part 0.
pub const BDT_ENTRY_0: &'static str = r#"<div class="bdt-entry">
                        <span class="addr">"#;

/// Layout of one BDT entry, part 1.
pub const BDT_ENTRY_1: &'static str = r#"</span>
                        <span class="mask">mask: "#;

/// Layout of one BDT entry, part 2.
pub const BDT_ENTRY_2: &'static str = r#"</span>
                        <form method="POST" action="/bdt/remove" style="display:inline">
                            <input type="hidden" name="addr" value=""#;

/// Layout of one BDT entry, part 3.
pub const BDT_ENTRY_3: &'static str = r#"">
                            <button type="submit" class="btn btn-small btn-danger">Remove</button>
                        </form>
                    </div>"#;

/// What the BDT page shows when the table is empty.
pub const BDT_NO_ENTRIES: &'static str = r#"<p style="color: #555; text-align: center;">No BDT entries configured</p>"#;

/// Opening of a message box.
pub const MESSAGE_OPEN: &'static str = r#"<div class="message">"#;

/// Closing of a message box.
pub const MESSAGE_CLOSE: &'static str = "</div>";

/// `yes` when `c` holds, `no` otherwise.
#[verifier::opaque]
pub open spec fn either(c: bool, yes: Seq<char>, no: Seq<char>) -> Seq<char> {
    if c {
        yes
    } else {
        no
    }
}

/// Append `yes` when `c` holds, `no` otherwise.
fn push_either(out: &mut Vec<char>, c: bool, yes: &str, no: &str)
    ensures
        final(out)@ == old(out)@ + either(c, yes@, no@),
{
    proof {
        reveal(either);
    }
    if c {
        push_str(out, yes);
    } else {
        push_str(out, no);
    }
}

/// A message box around `m`, or nothing when `m` is empty.
pub open spec fn message_html(m: Seq<char>) -> Seq<char> {
    if m.len() == 0 {
        Seq::empty()
    } else {
        MESSAGE_OPEN@ + m + MESSAGE_CLOSE@
    }
}

fn push_message_html(out: &mut Vec<char>, m: &str)
    ensures
        final(out)@ == old(out)@ + message_html(m@),
{
    if m.is_empty() {
        assert(old(out)@ + message_html(m@) =~= old(out)@);
    } else {
        push_str(out, MESSAGE_OPEN);
        push_str(out, m);
        push_str(out, MESSAGE_CLOSE);
        assert(final(out)@ =~= old(out)@ + message_html(m@));
    }
}

/// The status page from its style sheet to the device map.
pub open spec fn status_layout(s: MstpStats) -> Seq<char> {
    CSS_STYLES@
        + STATUS_PAGE_1@
        + hex32(s.discovered_masters)
        + STATUS_PAGE_2@
        + decimal(s.station_address as nat)
        + STATUS_PAGE_3@
        + decimal(s.master_count as nat)
        + STATUS_PAGE_4@
        + grid_cells(s.discovered_masters, s.station_address, 128)
        + STATUS_PAGE_5@
}

fn push_status_layout(out: &mut Vec<char>, s: MstpStats)
    ensures
        final(out)@ == old(out)@ + status_layout(s),
{
    push_str(out, CSS_STYLES);
    push_str(out, STATUS_PAGE_1);
    let mut hx = masters_hex(s.discovered_masters);
    out.append(&mut hx);
    push_str(out, STATUS_PAGE_2);
    push_decimal(out, s.station_address as u64);
    push_str(out, STATUS_PAGE_3);
    push_decimal(out, s.master_count as u64);
    push_str(out, STATUS_PAGE_4);
    let grid = generate_device_grid_html(s.discovered_masters, s.station_address);
    push_str(out, grid.as_str());
    push_str(out, STATUS_PAGE_5);
    assert(final(out)@ =~= old(out)@ + status_layout(s));
}

/// The state machine card of the status page.
pub open spec fn status_state(s: MstpStats) -> Seq<char> {
    state_label(s.current_state)
        + STATUS_PAGE_6@
        + either(s.sole_master, "warning"@, ""@)
        + STATUS_PAGE_7@
        + either(s.sole_master, "Yes"@, "No"@)
        + STATUS_PAGE_8@
        + decimal(s.next_station as nat)
        + STATUS_PAGE_9@
        + decimal(s.poll_station as nat)
        + STATUS_PAGE_10@
        + decimal(s.silence_ms as nat)
        + STATUS_PAGE_11@
}

fn push_status_state(out: &mut Vec<char>, s: MstpStats)
    ensures
        final(out)@ == old(out)@ + status_state(s),
{
    push_str(out, get_state_name(s.current_state));
    push_str(out, STATUS_PAGE_6);
    push_either(out, s.sole_master, "warning", "");
    push_str(out, STATUS_PAGE_7);
    push_either(out, s.sole_master, "Yes", "No");
    push_str(out, STATUS_PAGE_8);
    push_decimal(out, s.next_station as u64);
    push_str(out, STATUS_PAGE_9);
    push_decimal(out, s.poll_station as u64);
    push_str(out, STATUS_PAGE_10);
    push_decimal(out, s.silence_ms as u64);
    push_str(out, STATUS_PAGE_11);
    assert(final(out)@ =~= old(out)@ + status_state(s));
}

/// The master count and the MS/TP statistics card of the status page.
pub open spec fn status_stats(s: MstpStats) -> Seq<char> {
    decimal(s.master_count as nat)
        + STATUS_PAGE_12@
        + decimal(s.rx_frames as nat)
        + STATUS_PAGE_13@
        + decimal(s.tx_frames as nat)
        + STATUS_PAGE_14@
        + decimal(s.tokens_received as nat)
        + STATUS_PAGE_15@
        + decimal(s.send_queue_len as nat)
        + STATUS_PAGE_16@
        + decimal(s.receive_queue_len as nat)
        + STATUS_PAGE_17@
}

fn push_status_stats(out: &mut Vec<char>, s: MstpStats)
    ensures
        final(out)@ == old(out)@ + status_stats(s),
{
    push_decimal(out, s.master_count as u64);
    push_str(out, STATUS_PAGE_12);
    push_decimal(out, s.rx_frames as u64);
    push_str(out, STATUS_PAGE_13);
    push_decimal(out, s.tx_frames as u64);
    push_str(out, STATUS_PAGE_14);
    push_decimal(out, s.tokens_received as u64);
    push_str(out, STATUS_PAGE_15);
    push_decimal(out, s.send_queue_len as u64);
    push_str(out, STATUS_PAGE_16);
    push_decimal(out, s.receive_queue_len as u64);
    push_str(out, STATUS_PAGE_17);
    assert(final(out)@ =~= old(out)@ + status_stats(s));
}

/// The token loop timing card and the first error counts of the status page.
pub open spec fn status_timing(s: MstpStats) -> Seq<char> {
    decimal(s.token_loop_time_ms as nat)
        + STATUS_PAGE_18@
        + decimal(s.token_loop_min_ms as nat)
        + STATUS_PAGE_19@
        + decimal(s.token_loop_max_ms as nat)
        + STATUS_PAGE_20@
        + decimal(s.token_loop_avg_ms as nat)
        + STATUS_PAGE_21@
        + either(s.crc_errors > 0, "error"@, ""@)
        + STATUS_PAGE_22@
        + decimal(s.crc_errors as nat)
        + STATUS_PAGE_23@
}

fn push_status_timing(out: &mut Vec<char>, s: MstpStats)
    ensures
        final(out)@ == old(out)@ + status_timing(s),
{
    push_decimal(out, s.token_loop_time_ms as u64);
    push_str(out, STATUS_PAGE_18);
    push_decimal(out, s.token_loop_min_ms as u64);
    push_str(out, STATUS_PAGE_19);
    push_decimal(out, s.token_loop_max_ms as u64);
    push_str(out, STATUS_PAGE_20);
    push_decimal(out, s.token_loop_avg_ms as u64);
    push_str(out, STATUS_PAGE_21);
    push_either(out, s.crc_errors > 0, "error", "");
    push_str(out, STATUS_PAGE_22);
    push_decimal(out, s.crc_errors as u64);
    push_str(out, STATUS_PAGE_23);
    assert(final(out)@ =~= old(out)@ + status_timing(s));
}

/// The remaining error counts of the status page.
pub open spec fn status_errors(s: MstpStats) -> Seq<char> {
    either(s.frame_errors > 0, "error"@, ""@)
        + STATUS_PAGE_24@
        + decimal(s.frame_errors as nat)
        + STATUS_PAGE_25@
        + either(s.reply_timeouts > 0, "error"@, ""@)
        + STATUS_PAGE_26@
        + decimal(s.reply_timeouts as nat)
        + STATUS_PAGE_27@
        + either(s.token_pass_failures > 0, "error"@, ""@)
        + STATUS_PAGE_28@
        + decimal(s.token_pass_failures as nat)
        + STATUS_PAGE_29@
}

fn push_status_errors(out: &mut Vec<char>, s: MstpStats)
    ensures
        final(out)@ == old(out)@ + status_errors(s),
{
    push_either(out, s.frame_errors > 0, "error", "");
    push_str(out, STATUS_PAGE_24);
    push_decimal(out, s.frame_errors as u64);
    push_str(out, STATUS_PAGE_25);
    push_either(out, s.reply_timeouts > 0, "error", "");
    push_str(out, STATUS_PAGE_26);
    push_decimal(out, s.reply_timeouts as u64);
    push_str(out, STATUS_PAGE_27);
    push_either(out, s.token_pass_failures > 0, "error", "");
    push_str(out, STATUS_PAGE_28);
    push_decimal(out, s.token_pass_failures as u64);
    push_str(out, STATUS_PAGE_29);
    assert(final(out)@ =~= old(out)@ + status_errors(s));
}

/// The routing card of the status page: WiFi state, address, packet counts and uptime text `ut`.
pub open spec fn status_routing(g: GatewayStats, wifi: bool, ip: Seq<char>, ut: Seq<char>) -> Seq<char> {
    either(wifi, "ok"@, "error"@)
        + STATUS_PAGE_30@
        + either(wifi, "Connected"@, "Disconnected"@)
        + STATUS_PAGE_31@
        + ip
        + STATUS_PAGE_32@
        + decimal(g.mstp_to_ip_packets as nat)
        + STATUS_PAGE_33@
        + decimal(g.ip_to_mstp_packets as nat)
        + STATUS_PAGE_34@
        + ut
        + STATUS_PAGE_35@
}

fn push_status_routing(out: &mut Vec<char>, g: GatewayStats, wifi: bool, ip: &str, ut: &str)
    ensures
        final(out)@ == old(out)@ + status_routing(g, wifi, ip@, ut@),
{
    push_either(out, wifi, "ok", "error");
    push_str(out, STATUS_PAGE_30);
    push_either(out, wifi, "Connected", "Disconnected");
    push_str(out, STATUS_PAGE_31);
    push_str(out, ip);
    push_str(out, STATUS_PAGE_32);
    push_decimal(out, g.mstp_to_ip_packets as u64);
    push_str(out, STATUS_PAGE_33);
    push_decimal(out, g.ip_to_mstp_packets as u64);
    push_str(out, STATUS_PAGE_34);
    push_str(out, ut);
    push_str(out, STATUS_PAGE_35);
    assert(final(out)@ =~= old(out)@ + status_routing(g, wifi, ip@, ut@));
}

/// The network configuration card of the status page.
pub open spec fn status_network(c: ConfigView) -> Seq<char> {
    decimal(c.mstp_network as nat)
        + STATUS_PAGE_36@
        + decimal(c.ip_network as nat)
        + STATUS_PAGE_37@
        + decimal(c.mstp_address as nat)
        + STATUS_PAGE_38@
        + decimal(c.device_instance as nat)
        + STATUS_PAGE_39@
}

fn push_status_network(out: &mut Vec<char>, c: &GatewayConfig)
    ensures
        final(out)@ == old(out)@ + status_network(c@),
{
    push_decimal(out, c.mstp_network as u64);
    push_str(out, STATUS_PAGE_36);
    push_decimal(out, c.ip_network as u64);
    push_str(out, STATUS_PAGE_37);
    push_decimal(out, c.mstp_address as u64);
    push_str(out, STATUS_PAGE_38);
    push_decimal(out, c.device_instance as u64);
    push_str(out, STATUS_PAGE_39);
    assert(final(out)@ =~= old(out)@ + status_network(c@));
}

/// The configuration page from its style sheet to the MS/TP fields, with message `m`.
pub open spec fn config_top(c: ConfigView, m: Seq<char>) -> Seq<char> {
    CSS_STYLES@
        + CONFIG_PAGE_1@
        + message_html(m)
        + CONFIG_PAGE_2@
        + c.wifi_ssid
        + CONFIG_PAGE_3@
        + c.ap_ssid
        + CONFIG_PAGE_4@
        + decimal(c.mstp_address as nat)
        + CONFIG_PAGE_5@
        + decimal(c.mstp_max_master as nat)
        + CONFIG_PAGE_6@
}

fn push_config_top(out: &mut Vec<char>, c: &GatewayConfig, m: &str)
    ensures
        final(out)@ == old(out)@ + config_top(c@, m@),
{
    push_str(out, CSS_STYLES);
    push_str(out, CONFIG_PAGE_1);
    push_message_html(out, m);
    push_str(out, CONFIG_PAGE_2);
    push_str(out, c.wifi_ssid.as_str());
    push_str(out, CONFIG_PAGE_3);
    push_str(out, c.ap_ssid.as_str());
    push_str(out, CONFIG_PAGE_4);
    push_decimal(out, c.mstp_address as u64);
    push_str(out, CONFIG_PAGE_5);
    push_decimal(out, c.mstp_max_master as u64);
    push_str(out, CONFIG_PAGE_6);
    assert(final(out)@ =~= old(out)@ + config_top(c@, m@));
}

/// The baud rate choice of the configuration page.
pub open spec fn config_baud(c: ConfigView) -> Seq<char> {
    either(c.mstp_baud_rate == 9600, "selected"@, ""@)
        + CONFIG_PAGE_7@
        + either(c.mstp_baud_rate == 19200, "selected"@, ""@)
        + CONFIG_PAGE_8@
        + either(c.mstp_baud_rate == 38400, "selected"@, ""@)
        + CONFIG_PAGE_9@
        + either(c.mstp_baud_rate == 57600, "selected"@, ""@)
        + CONFIG_PAGE_10@
        + either(c.mstp_baud_rate == 76800, "selected"@, ""@)
        + CONFIG_PAGE_11@
        + either(c.mstp_baud_rate == 115200, "selected"@, ""@)
        + CONFIG_PAGE_12@
}

fn push_config_baud(out: &mut Vec<char>, c: &GatewayConfig)
    ensures
        final(out)@ == old(out)@ + config_baud(c@),
{
    push_either(out, c.mstp_baud_rate == 9600, "selected", "");
    push_str(out, CONFIG_PAGE_7);
    push_either(out, c.mstp_baud_rate == 19200, "selected", "");
    push_str(out, CONFIG_PAGE_8);
    push_either(out, c.mstp_baud_rate == 38400, "selected", "");
    push_str(out, CONFIG_PAGE_9);
    push_either(out, c.mstp_baud_rate == 57600, "selected", "");
    push_str(out, CONFIG_PAGE_10);
    push_either(out, c.mstp_baud_rate == 76800, "selected", "");
    push_str(out, CONFIG_PAGE_11);
    push_either(out, c.mstp_baud_rate == 115200, "selected", "");
    push_str(out, CONFIG_PAGE_12);
    assert(final(out)@ =~= old(out)@ + config_baud(c@));
}

/// The configuration page from the network fields to its end.
pub open spec fn config_bottom(c: ConfigView) -> Seq<char> {
    decimal(c.mstp_network as nat)
        + CONFIG_PAGE_13@
        + decimal(c.bacnet_ip_port as nat)
        + CONFIG_PAGE_14@
        + decimal(c.ip_network as nat)
        + CONFIG_PAGE_15@
        + decimal(c.device_instance as nat)
        + CONFIG_PAGE_16@
        + c.device_name
        + CONFIG_PAGE_17@
}

fn push_config_bottom(out: &mut Vec<char>, c: &GatewayConfig)
    ensures
        final(out)@ == old(out)@ + config_bottom(c@),
{
    push_decimal(out, c.mstp_network as u64);
    push_str(out, CONFIG_PAGE_13);
    push_decimal(out, c.bacnet_ip_port as u64);
    push_str(out, CONFIG_PAGE_14);
    push_decimal(out, c.ip_network as u64);
    push_str(out, CONFIG_PAGE_15);
    push_decimal(out, c.device_instance as u64);
    push_str(out, CONFIG_PAGE_16);
    push_str(out, c.device_name.as_str());
    push_str(out, CONFIG_PAGE_17);
    assert(final(out)@ =~= old(out)@ + config_bottom(c@));
}

/// The status page for statistics `s` and `g`, WiFi state `wifi`, address
/// text `ip`, uptime `up` seconds and configuration `c`.
pub open spec fn status_page(s: MstpStats, g: GatewayStats, wifi: bool, ip: Seq<char>, up: u64, c: ConfigView) -> Seq<char> {
    STATUS_PAGE_0@ + status_layout(s) + status_state(s) + status_stats(s) + status_timing(s) + status_errors(s)
        + status_routing(g, wifi, ip, uptime_text(up)) + status_network(c)
}

/// The status page at clock reading `now_ms`.
pub fn generate_status_page(state: &WebState, now_ms: u64) -> (r: String)
    ensures
        r@ == status_page(
            state.mstp_stats,
            state.gateway_stats,
            state.wifi_connected,
            state.ip_address@,
            uptime_spec(state.start_time_ms, now_ms),
            state.config@,
        ),
{
    let ut = state.uptime_formatted(now_ms);
    let mut v: Vec<char> = Vec::new();
    push_str(&mut v, STATUS_PAGE_0);
    push_status_layout(&mut v, state.mstp_stats);
    push_status_state(&mut v, state.mstp_stats);
    push_status_stats(&mut v, state.mstp_stats);
    push_status_timing(&mut v, state.mstp_stats);
    push_status_errors(&mut v, state.mstp_stats);
    push_status_routing(&mut v, state.gateway_stats, state.wifi_connected, state.ip_address.as_str(), ut.as_str());
    push_status_network(&mut v, &state.config);
    assert(v@ =~= status_page(
        state.mstp_stats,
        state.gateway_stats,
        state.wifi_connected,
        state.ip_address@,
        uptime_spec(state.start_time_ms, now_ms),
        state.config@,
    ));
    string_from_chars(&v)
}

/// The configuration page for configuration `c` with message `m`.
pub open spec fn config_page(c: ConfigView, m: Seq<char>) -> Seq<char> {
    CONFIG_PAGE_0@ + config_top(c, m) + config_baud(c) + config_bottom(c)
}

/// The configuration page with the message `message` (none when empty).
pub fn generate_config_page_with_message(state: &WebState, message: &str) -> (r: String)
    ensures
        r@ == config_page(state.config@, message@),
{
    let mut v: Vec<char> = Vec::new();
    push_str(&mut v, CONFIG_PAGE_0);
    push_config_top(&mut v, &state.config, message);
    push_config_baud(&mut v, &state.config);
    push_config_bottom(&mut v, &state.config);
    assert(v@ =~= config_page(state.config@, message@));
    string_from_chars(&v)
}

/// The configuration page.
pub fn generate_config_page(state: &WebState) -> (r: String)
    ensures
        r@ == config_page(state.config@, Seq::empty()),
{
    proof {
        reveal_strlit("");
    }
    generate_config_page_with_message(state, "")
}

/// An endpoint as `a.b.c.d:port`.
pub open spec fn endpoint_text(e: IpEndpoint) -> Seq<char> {
    dotted(e.ip@) + ":"@ + decimal(e.port as nat)
}

fn push_endpoint_text(out: &mut Vec<char>, e: IpEndpoint)
    ensures
        final(out)@ == old(out)@ + endpoint_text(e),
{
    push_dotted(out, e.ip);
    push_str(out, ":");
    push_decimal(out, e.port as u64);
    assert(final(out)@ =~= old(out)@ + endpoint_text(e));
}

/// One BDT entry of the BDT page, with its remove button.
pub open spec fn bdt_entry_html(e: (IpEndpoint, [u8; 4])) -> Seq<char> {
    BDT_ENTRY_0@ + endpoint_text(e.0) + BDT_ENTRY_1@ + dotted(e.1@) + BDT_ENTRY_2@ + endpoint_text(e.0)
        + BDT_ENTRY_3@
}

fn push_bdt_entry_html(out: &mut Vec<char>, e: (IpEndpoint, [u8; 4]))
    ensures
        final(out)@ == old(out)@ + bdt_entry_html(e),
{
    push_str(out, BDT_ENTRY_0);
    push_endpoint_text(out, e.0);
    push_str(out, BDT_ENTRY_1);
    push_dotted(out, e.1);
    push_str(out, BDT_ENTRY_2);
    push_endpoint_text(out, e.0);
    push_str(out, BDT_ENTRY_3);
    assert(final(out)@ =~= old(out)@ + bdt_entry_html(e));
}

/// The BDT entries of `s` on the BDT page, one per line.
pub open spec fn bdt_entry_list(s: Seq<(IpEndpoint, [u8; 4])>) -> Seq<char>
    decreases s.len(),
{
    if s.len() == 0 {
        Seq::empty()
    } else if s.len() == 1 {
        bdt_entry_html(s[0])
    } else {
        bdt_entry_list(s.drop_last()) + "\n"@ + bdt_entry_html(s.last())
    }
}

/// The table part of the BDT page.
pub open spec fn bdt_entries_html(s: Seq<(IpEndpoint, [u8; 4])>) -> Seq<char> {
    if s.len() == 0 {
        BDT_NO_ENTRIES@
    } else {
        bdt_entry_list(s)
    }
}

fn push_bdt_entries_html(out: &mut Vec<char>, list: &Vec<(IpEndpoint, [u8; 4])>)
    ensures
        final(out)@ == old(out)@ + bdt_entries_html(list@),
{
    if list.len() == 0 {
        push_str(out, BDT_NO_ENTRIES);
        return;
    }
    let ghost start = out@;
    let mut i: usize = 0;
    assert(list@.take(0) =~= Seq::<(IpEndpoint, [u8; 4])>::empty());
    assert(out@ =~= start + bdt_entry_list(list@.take(0)));
    while i < list.len()
        invariant
            i <= list@.len(),
            out@ == start + bdt_entry_list(list@.take(i as int)),
        decreases list@.len() - i,
    {
        let e = list[i];
        let ghost before = out@;
        if i > 0 {
            push_str(out, "\n");
        }
        push_bdt_entry_html(out, e);
        proof {
            let t = list@.take(i + 1);
            assert(t.drop_last() =~= list@.take(i as int));
            if i == 0 {
                assert(out@ =~= before + bdt_entry_html(e));
            } else {
                assert(out@ =~= before + "\n"@ + bdt_entry_html(e));
            }
        }
        i = i + 1;
        assert(out@ =~= start + bdt_entry_list(list@.take(i as int)));
    }
    assert(list@.take(i as int) =~= list@);
}

/// The BDT page for entries `s` with message `m`.
pub open spec fn bdt_page(s: Seq<(IpEndpoint, [u8; 4])>, m: Seq<char>) -> Seq<char> {
    BDT_PAGE_0@ + CSS_STYLES@ + BDT_PAGE_1@ + message_html(m) + BDT_PAGE_2@ + bdt_entries_html(s) + BDT_PAGE_3@
}

/// The BDT page with the message `message` (none when empty).
pub fn generate_bdt_page_with_message(state: &WebState, message: &str) -> (r: String)
    ensures
        r@ == bdt_page(state.bdt_entries@, message@),
{
    let mut v: Vec<char> = Vec::new();
    push_str(&mut v, BDT_PAGE_0);
    push_str(&mut v, CSS_STYLES);
    push_str(&mut v, BDT_PAGE_1);
    push_message_html(&mut v, message);
    push_str(&mut v, BDT_PAGE_2);
    push_bdt_entries_html(&mut v, &state.bdt_entries);
    push_str(&mut v, BDT_PAGE_3);
    assert(v@ =~= bdt_page(state.bdt_entries@, message@));
    string_from_chars(&v)
}

/// The BDT page.
pub fn generate_bdt_page(state: &WebState) -> (r: String)
    ensures
        r@ == bdt_page(state.bdt_entries@, Seq::empty()),
{
    proof {
        reveal_strlit("");
    }
    generate_bdt_page_with_message(state, "")
}

} // verus!
